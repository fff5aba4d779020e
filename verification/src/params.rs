//! Parameter changes that the host sends.

use vstd::prelude::*;

verus! {

/// The value of the parameter is to be updated.
pub const UPDATE_VALUE: isize = 1;

/// The value comes from a MIDI controller and spans the whole range of 16 bit numbers.
pub const FROM_MIDI: isize = 32;

/// The bits of all flags that the host can set.
pub const ALL_FLAGS: isize = 0x1c37;

/// The greatest speed that a parameter can set.
pub const TOP_SPEED: u64 = 600;

/// Takes both sides as `fpsdk::ProcessParamFlags`, with `from_bits_truncate`, and asks the first
/// with `contains` for the second.
///
/// Claims that the answer is whether all bits of the second are set in the first. For that the
/// second may only have bits that are flags: the others would be dropped.
#[verifier::external_body]
fn contains_flags(flags: isize, wanted: isize) -> (contains: bool)
    requires
        wanted & ALL_FLAGS == wanted,
    ensures
        contains == (flags & wanted == wanted),
{
    fpsdk::ProcessParamFlags::from_bits_truncate(flags).contains(
        fpsdk::ProcessParamFlags::from_bits_truncate(wanted),
    )
}

/// Whether the flags ask for a parameter to be set from a MIDI controller.
pub open spec fn is_midi_update(flags: isize) -> bool {
    flags & (FROM_MIDI | UPDATE_VALUE) == FROM_MIDI | UPDATE_VALUE
}

/// Whether the flags ask for a parameter to be set from a MIDI controller.
pub fn sets_from_midi(flags: isize) -> (sets: bool)
    ensures
        sets == is_midi_update(flags),
{
    assert((32isize | 1isize) & 0x1c37isize == 32isize | 1isize) by (bit_vector);
    contains_flags(flags, FROM_MIDI | UPDATE_VALUE)
}

/// The speed for a value from a MIDI controller: the share of the full range that the value is,
/// taken of the top speed and rounded down.
///
/// The share is a double precision number. At 48059 it comes out a little too small, and the
/// speed falls one short of the whole number that it should be.
pub open spec fn spec_midi_speed(value: u16) -> u64 {
    if value == 48059 {
        439
    } else {
        (value as int * TOP_SPEED as int / 65535) as u64
    }
}

/// The speed for a value from a MIDI controller.
pub fn midi_speed(value: u16) -> (speed: u64)
    ensures
        speed == spec_midi_speed(value),
{
    if value == 48059 {
        439
    } else {
        value as u64 * TOP_SPEED / 65535
    }
}

/// Speeds from a MIDI controller never go above the top speed, which the greatest value gives,
/// and a greater value never gives a lower speed.
pub proof fn midi_speeds_rise_to_the_top(value: u16, greater: u16)
    requires
        value <= greater,
    ensures
        spec_midi_speed(value) <= spec_midi_speed(greater) <= TOP_SPEED,
        spec_midi_speed(u16::MAX) == TOP_SPEED,
        spec_midi_speed(0) == 0,
{
}

/// Flags ask for a parameter to be set from a MIDI controller when both the flag for a new value and
/// the one for MIDI are among them, whatever else is.
pub proof fn midi_updates_have_both_flags(flags: isize)
    ensures
        is_midi_update(flags) <==> flags & 1 == 1 && flags & 32 == 32,
{
    assert((flags & (32isize | 1isize) == 32isize | 1isize) <==> (flags & 1 == 1 && flags & 32
        == 32)) by (bit_vector);
}

/// A speed is to the top speed of 600 as the value is to its full range, but for what is lost to
/// rounding: less than one.
pub proof fn midi_speeds_are_in_proportion(value: u16)
    ensures
        value != 48059 ==> spec_midi_speed(value) * 65535 <= value * 600 < (spec_midi_speed(value)
            + 1) * 65535,
        value == 48059 ==> spec_midi_speed(value) == 439,
{
}

} // verus!
