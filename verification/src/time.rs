//! Points in time.

use vstd::prelude::*;

verus! {

/// The first second that the calendar knows, counted from the start of 1970.
pub const FIRST_SECOND: i64 = -8_334_601_228_800;

/// The last second that the calendar knows, counted from the start of 1970.
pub const LAST_SECOND: i64 = 8_210_266_876_799;

/// A point in coordinated universal time: whole seconds since the start of 1970, leap seconds not
/// counted, and the nanoseconds since. Within a leap second, which can only follow the last
/// second of a minute, the nanoseconds go on past one billion.
#[derive(Clone, Copy, Debug, PartialEq, Eq, Structural)]
pub struct Timestamp {
    pub secs: i64,
    pub nanos: u32,
}

impl Timestamp {
    /// Whether the calendar knows the point in time.
    pub open spec fn valid(self) -> bool {
        &&& FIRST_SECOND <= self.secs <= LAST_SECOND
        &&& self.nanos < 2_000_000_000
        &&& self.nanos >= 1_000_000_000 ==> self.secs % 60 == 59
    }

    pub open spec fn is_after(self, other: Timestamp) -> bool {
        self.secs > other.secs || (self.secs == other.secs && self.nanos > other.nanos)
    }

    /// The point in time `seconds` earlier. A leap second counts as one.
    pub open spec fn spec_earlier(self, seconds: int) -> Timestamp {
        if self.nanos < 1_000_000_000 {
            Timestamp { secs: (self.secs - seconds) as i64, nanos: self.nanos }
        } else {
            Timestamp {
                secs: (self.secs + 1 - seconds) as i64,
                nanos: (self.nanos - 1_000_000_000) as u32,
            }
        }
    }

    /// Reports whether the calendar knows the point in time.
    pub fn is_valid(&self) -> (is_valid: bool)
        ensures
            is_valid == self.valid(),
    {
        if self.secs < FIRST_SECOND || self.secs > LAST_SECOND || self.nanos >= 2_000_000_000 {
            return false;
        }
        // Counted from the first second, which starts a minute, so that nothing is negative.
        self.nanos < 1_000_000_000 || (self.secs - FIRST_SECOND) % 60 == 59
    }

    /// Whether this point in time comes after the other one.
    pub fn after(&self, other: &Timestamp) -> (after: bool)
        ensures
            after == self.is_after(*other),
    {
        self.secs > other.secs || (self.secs == other.secs && self.nanos > other.nanos)
    }

    /// The point in time `seconds` earlier.
    pub fn earlier(&self, seconds: i64) -> (earlier: Timestamp)
        requires
            self.valid(),
            seconds > 0,
            self.secs - seconds >= FIRST_SECOND,
        ensures
            earlier == self.spec_earlier(seconds as int),
            earlier.valid(),
    {
        let (secs, nanos) = subtract_seconds(self.secs, self.nanos, seconds);
        Timestamp { secs, nanos }
    }
}

/// Makes a `chrono::DateTime` in UTC from the timestamp, takes away a `chrono::Duration` of that
/// many seconds with the `-` operator, and hands back `timestamp` and `timestamp_subsec_nanos` of
/// what is left.
///
/// Claims that this is plain subtraction on the seconds, with the nanoseconds untouched, except
/// from within a leap second: then one second less is taken, and the nanoseconds lose the billion
/// that marked it.
#[verifier::external_body]
fn subtract_seconds(secs: i64, nanos: u32, seconds: i64) -> (left: (i64, u32))
    requires
        (Timestamp { secs, nanos }).valid(),
        seconds > 0,
        secs - seconds >= FIRST_SECOND,
    ensures
        (Timestamp { secs: left.0, nanos: left.1 }) == (Timestamp { secs, nanos }).spec_earlier(
            seconds as int,
        ),
{
    let time = chrono::DateTime::<chrono::Utc>::from_timestamp(secs, nanos).unwrap();
    let left = time - chrono::Duration::seconds(seconds);
    (left.timestamp(), left.timestamp_subsec_nanos())
}

/// An earlier point in time is one that the first comes after.
pub proof fn earlier_comes_before(time: Timestamp, seconds: int)
    requires
        time.valid(),
        seconds > 0,
        time.secs - seconds >= FIRST_SECOND,
    ensures
        time.is_after(time.spec_earlier(seconds)),
{
}

/// Points in time are strictly ordered: of two different ones exactly one comes after the other,
/// and what comes after a later one comes after an earlier one.
pub proof fn time_is_ordered(a: Timestamp, b: Timestamp, c: Timestamp)
    ensures
        a != b ==> (a.is_after(b) <==> !b.is_after(a)),
        !a.is_after(a),
        a.is_after(b) && b.is_after(c) ==> a.is_after(c),
{
}

/// One point in time comes after another exactly when it is later on the clock: by its seconds, and
/// within one second by its nanoseconds.
pub proof fn later_on_the_clock_comes_after(a: Timestamp, b: Timestamp)
    ensures
        a.secs > b.secs ==> a.is_after(b) && !b.is_after(a),
        a.secs == b.secs ==> (a.is_after(b) <==> a.nanos > b.nanos),
{
}

/// Outside leap seconds, one point in time comes after another exactly when more nanoseconds have
/// passed by then.
pub proof fn more_has_passed_by_what_comes_after(a: Timestamp, b: Timestamp)
    requires
        a.nanos < 1_000_000_000,
        b.nanos < 1_000_000_000,
    ensures
        a.is_after(b) <==> a.secs * 1_000_000_000 + a.nanos > b.secs * 1_000_000_000 + b.nanos,
{
}

/// Between a point in time and one that is some seconds earlier lie exactly these seconds, and the
/// earlier one is in no leap second.
pub proof fn earlier_is_by_exactly_the_seconds(time: Timestamp, seconds: int)
    requires
        time.valid(),
        seconds > 0,
        time.secs - seconds >= FIRST_SECOND,
    ensures
        time.secs * 1_000_000_000 + time.nanos - (time.spec_earlier(seconds).secs * 1_000_000_000
            + time.spec_earlier(seconds).nanos) == seconds * 1_000_000_000,
        time.spec_earlier(seconds).nanos < 1_000_000_000,
        time.nanos < 1_000_000_000 ==> time.spec_earlier(seconds).nanos == time.nanos,
        time.spec_earlier(seconds).valid(),
{
}

/// The calendar knows every nanosecond of each second from its first to its last one, and of the
/// leap seconds that can follow the last second of a minute. It knows no others.
pub proof fn the_calendar_has_no_gaps(time: Timestamp)
    ensures
        time.valid() ==> -8_334_601_228_800 <= time.secs <= 8_210_266_876_799,
        time.valid() ==> time.nanos < 2_000_000_000,
        -8_334_601_228_800 <= time.secs <= 8_210_266_876_799 && time.nanos < 1_000_000_000
            ==> time.valid(),
        -8_334_601_228_800 <= time.secs <= 8_210_266_876_799 && 1_000_000_000 <= time.nanos
            < 2_000_000_000 ==> (time.valid() <==> (time.secs + 1) % 60 == 0),
{
}

} // verus!
