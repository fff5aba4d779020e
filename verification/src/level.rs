//! Controller levels.

use vstd::arithmetic::power2::*;
use vstd::bits::*;
use vstd::prelude::*;

verus! {

/// Bit pattern of the single precision number one. The levels from zero up to, but not
/// including, one are exactly the patterns below it.
pub const ONE_BITS: u32 = 0x3f80_0000;

/// A single precision number, held as its bit pattern.
///
/// Bit 31 is the sign, bits 30 to 23 the biased exponent and bits 22 to 0 the fraction.
#[derive(Clone, Copy, Debug, PartialEq, Eq, Structural)]
pub struct Level {
    pub bits: u32,
}

impl Level {
    pub open spec fn negative(self) -> bool {
        self.bits >= 0x8000_0000
    }

    pub open spec fn exponent(self) -> nat {
        ((self.bits as nat) / 0x80_0000) % 0x100
    }

    pub open spec fn fraction(self) -> nat {
        (self.bits as nat) % 0x80_0000
    }

    /// The significand as a whole number: a finite level other than a negative one is
    /// `significand * 2^(max(exponent, 1) - 150)`.
    pub open spec fn significand(self) -> nat {
        if self.exponent() == 0 {
            self.fraction()
        } else {
            0x80_0000 + self.fraction()
        }
    }

    /// Whether the level lies in the half open range from zero to one.
    pub open spec fn in_unit_range(self) -> bool {
        self.bits < ONE_BITS
    }

    /// Whether the level is a number from zero to one, both ends among them. Zero may have a sign.
    pub open spec fn in_closed_unit_range(self) -> bool {
        self.bits <= ONE_BITS || self.bits == 0x8000_0000
    }

    /// The largest whole number that is not above 4096 times the level, held in the range of
    /// 64 bit numbers. What is not a number counts as zero.
    pub open spec fn in_4096ths(self) -> nat {
        if self.negative() {
            0
        } else if self.exponent() == 255 {
            if self.fraction() == 0 {
                u64::MAX as nat
            } else {
                0
            }
        } else if self.exponent() >= 138 {
            let scaled = self.significand() * pow2((self.exponent() - 138) as nat);
            if scaled > u64::MAX {
                u64::MAX as nat
            } else {
                scaled
            }
        } else if self.exponent() == 0 {
            self.significand() / pow2(137)
        } else {
            self.significand() / pow2((138 - self.exponent()) as nat)
        }
    }

    /// What the host is told for this level: the 4096ths, moved to the upper half of a 64 bit
    /// number. What does not fit there is cut off.
    pub open spec fn spec_controller_value(self) -> u64 {
        ((self.in_4096ths() % 0x1_0000_0000) * 0x1_0000_0000) as u64
    }

    /// Whether the level is a number, and not an infinite one.
    pub open spec fn finite(self) -> bool {
        self.exponent() != 255
    }

    /// The same number, with zero written without a sign.
    pub open spec fn spec_unsigned_zero(self) -> Level {
        if self.bits == 0x8000_0000 {
            Level { bits: 0 }
        } else {
            self
        }
    }

    /// Reports whether the level is a number, and not an infinite one.
    pub fn is_finite(self) -> (finite: bool)
        ensures
            finite == self.finite(),
    {
        let bits: u32 = self.bits;
        assert((bits >> 23) & 0xff == (bits / 0x80_0000) % 0x100) by (bit_vector);
        (bits >> 23) & 0xff != 255
    }

    /// The same number, with zero written without a sign.
    pub fn unsigned_zero(self) -> (level: Level)
        ensures
            level == self.spec_unsigned_zero(),
    {
        if self.bits == 0x8000_0000 {
            Level::zero()
        } else {
            self
        }
    }

    /// The number zero.
    pub fn zero() -> (level: Level)
        ensures
            level == (Level { bits: 0 }),
    {
        Level { bits: 0 }
    }

    fn scaled(self) -> (scaled: u64)
        ensures
            scaled == self.in_4096ths(),
    {
        let bits: u32 = self.bits;
        let exponent: u32 = (bits >> 23) & 0xff;
        let fraction: u32 = bits & 0x7f_ffff;
        assert((bits >> 23) & 0xff == (bits / 0x80_0000) % 0x100) by (bit_vector);
        assert(bits & 0x7f_ffff == bits % 0x80_0000) by (bit_vector);
        if bits >= 0x8000_0000 {
            return 0;
        }
        if exponent == 255 {
            return if fraction == 0 { u64::MAX } else { 0 };
        }
        if exponent == 0 {
            assert(self.significand() / pow2(137) == 0) by {
                lemma2_to64();
                lemma_pow2_strictly_increases(23, 137);
                vstd::arithmetic::div_mod::lemma_basic_div(
                    self.significand() as int,
                    pow2(137) as int,
                );
            }
            return 0;
        }
        let significand: u64 = 0x80_0000 + fraction as u64;
        if exponent >= 138 {
            let shift: u64 = (exponent - 138) as u64;
            if shift <= 40 {
                proof {
                    lemma2_to64();
                    lemma2_to64_rest();
                    if shift < 40 {
                        lemma_pow2_strictly_increases(shift as nat, 40);
                    }
                    assert(significand * pow2(shift as nat) <= u64::MAX) by (nonlinear_arith)
                        requires
                            significand < 0x100_0000,
                            pow2(shift as nat) <= 0x100_0000_0000,
                    ;
                    lemma_u64_shl_is_mul(significand, shift);
                }
                significand << shift
            } else {
                assert(significand * pow2(shift as nat) > u64::MAX) by {
                    lemma2_to64();
                    lemma2_to64_rest();
                    if shift > 41 {
                        lemma_pow2_strictly_increases(41, shift as nat);
                    }
                    assert(significand * pow2(shift as nat) > u64::MAX) by (nonlinear_arith)
                        requires
                            significand >= 0x80_0000,
                            pow2(shift as nat) >= 0x200_0000_0000,
                    ;
                }
                u64::MAX
            }
        } else {
            let shift: u64 = (138 - exponent) as u64;
            if shift < 64 {
                proof {
                    lemma_u64_shr_is_div(significand, shift);
                }
                significand >> shift
            } else {
                assert(significand as nat / pow2(shift as nat) == 0) by {
                    lemma2_to64();
                    lemma_pow2_strictly_increases(24, shift as nat);
                    vstd::arithmetic::div_mod::lemma_basic_div(
                        significand as int,
                        pow2(shift as nat) as int,
                    );
                }
                0
            }
        }
    }

    /// What the host is told for this level.
    pub fn controller_value(self) -> (value: u64)
        ensures
            value == self.spec_controller_value(),
    {
        let scaled: u64 = self.scaled();
        assert(scaled << 32 == (scaled % 0x1_0000_0000) * 0x1_0000_0000) by (bit_vector);
        scaled << 32
    }
}

/// A level below one is told to the host as fewer than 4096 steps.
pub proof fn unit_levels_stay_below_full_scale(level: Level)
    requires
        level.in_unit_range(),
    ensures
        level.in_4096ths() < 4096,
        level.spec_controller_value() == level.in_4096ths() * 0x1_0000_0000,
{
    let bits = level.bits;
    assert(bits < 0x3f80_0000u32 ==> (bits / 0x80_0000) % 0x100 <= 126) by (bit_vector);
    lemma2_to64();
    if level.exponent() == 0 {
        lemma_pow2_strictly_increases(23, 137);
        vstd::arithmetic::div_mod::lemma_basic_div(level.significand() as int, pow2(137) as int);
    } else {
        let shift = (138 - level.exponent()) as nat;
        if shift > 12 {
            lemma_pow2_strictly_increases(12, shift);
        }
        let significand = level.significand();
        let steps = significand / pow2(shift);
        vstd::arithmetic::div_mod::lemma_fundamental_div_mod(
            significand as int,
            pow2(shift) as int,
        );
        assert(steps < 4096) by (nonlinear_arith)
            requires
                significand < 0x100_0000,
                pow2(shift) >= 4096,
                significand == pow2(shift) * steps + significand % pow2(shift),
        ;
    }
}

/// Of two levels that are not negative and not infinite, the greater one is never told to the host
/// as fewer steps.
pub proof fn greater_levels_are_told_as_no_fewer_steps(level: Level, greater: Level)
    requires
        level.bits <= greater.bits < 0x7f80_0000,
    ensures
        level.in_4096ths() <= greater.in_4096ths(),
{
    let a = level.bits;
    let b = greater.bits;
    assert(a <= b && b < 0x7f80_0000u32 ==> (a / 0x80_0000) % 0x100 <= (b / 0x80_0000) % 0x100
        && (b / 0x80_0000) % 0x100 < 255 && ((a / 0x80_0000) % 0x100 == (b / 0x80_0000) % 0x100
        ==> a % 0x80_0000 <= b % 0x80_0000)) by (bit_vector);
    let e = level.exponent();
    let f = greater.exponent();
    let m = level.significand();
    let n = greater.significand();
    lemma2_to64();
    if e == 0 {
        lemma_pow2_strictly_increases(23, 137);
        vstd::arithmetic::div_mod::lemma_basic_div(m as int, pow2(137) as int);
    } else if f < 138 {
        let s = (138 - e) as nat;
        let t = (138 - f) as nat;
        lemma_pow2_pos(t);
        if e == f {
            vstd::arithmetic::div_mod::lemma_div_is_ordered(m as int, n as int, pow2(s) as int);
        } else {
            lemma_pow2_adds(t, (s - t) as nat);
            lemma_pow2_pos((s - t) as nat);
            lemma_pow2_unfold((s - t) as nat);
            lemma_pow2_pos((s - t - 1) as nat);
            vstd::arithmetic::div_mod::lemma_div_denominator(
                m as int,
                pow2((s - t) as nat) as int,
                pow2(t) as int,
            );
            let halved = m as int / pow2((s - t) as nat) as int;
            vstd::arithmetic::div_mod::lemma_div_is_ordered_by_denominator(
                m as int,
                2,
                pow2((s - t) as nat) as int,
            );
            assert(halved <= n);
            vstd::arithmetic::div_mod::lemma_div_is_ordered(halved, n as int, pow2(t) as int);
            assert(pow2((s - t) as nat) * pow2(t) == pow2(s)) by (nonlinear_arith)
                requires
                    pow2(t) * pow2((s - t) as nat) == pow2(s),
            ;
        }
    } else if e < 138 {
        let s = (138 - e) as nat;
        lemma_pow2_pos(s);
        lemma_pow2_unfold(s);
        lemma_pow2_pos((s - 1) as nat);
        vstd::arithmetic::div_mod::lemma_div_is_ordered_by_denominator(m as int, 2, pow2(s) as int);
        let t = (f - 138) as nat;
        lemma_pow2_pos(t);
        assert(n * pow2(t) >= n) by (nonlinear_arith)
            requires
                pow2(t) >= 1,
        ;
    } else {
        let s = (e - 138) as nat;
        let t = (f - 138) as nat;
        lemma_pow2_pos(s);
        if e == f {
            assert(m * pow2(s) <= n * pow2(s)) by (nonlinear_arith)
                requires
                    m <= n,
            ;
        } else {
            lemma_pow2_adds(s, (t - s) as nat);
            lemma_pow2_unfold((t - s) as nat);
            lemma_pow2_pos((t - s - 1) as nat);
            assert(m * pow2(s) <= n * pow2(t)) by (nonlinear_arith)
                requires
                    m <= 2 * n,
                    pow2(t) == pow2(s) * pow2((t - s) as nat),
                    pow2((t - s) as nat) >= 2,
            ;
        }
    }
}

/// A level that is a positive number is told to the host as 4096 times that number, rounded down:
/// with the significand that its bits hold, and the power of two that they scale it by.
pub proof fn steps_are_4096_times_the_level(level: Level)
    requires
        level.bits < 0x7f80_0000,
    ensures
        ({
            let exponent = (level.bits / 0x80_0000) as int;
            let significand = 0x80_0000 + level.bits % 0x80_0000;
            let steps = level.in_4096ths();
            &&& exponent == 0 ==> steps == 0
            &&& 1 <= exponent <= 137 ==> steps * pow2((138 - exponent) as nat) <= significand < (
            steps + 1) * pow2((138 - exponent) as nat)
            &&& 138 <= exponent ==> steps == if significand * pow2((exponent - 138) as nat)
                <= u64::MAX {
                significand * pow2((exponent - 138) as nat)
            } else {
                u64::MAX as int
            }
        }),
{
    let bits = level.bits;
    assert(bits < 0x7f80_0000u32 ==> (bits / 0x80_0000) % 0x100 == bits / 0x80_0000) by (bit_vector);
    lemma2_to64();
    let exponent = level.exponent();
    let significand = level.significand();
    if exponent == 0 {
        lemma_pow2_strictly_increases(23, 137);
        vstd::arithmetic::div_mod::lemma_basic_div(significand as int, pow2(137) as int);
    } else if exponent <= 137 {
        let scale = pow2((138 - exponent) as nat);
        lemma_pow2_pos((138 - exponent) as nat);
        let steps = significand / scale;
        vstd::arithmetic::div_mod::lemma_fundamental_div_mod(significand as int, scale as int);
        vstd::arithmetic::div_mod::lemma_mod_bound(significand as int, scale as int);
        assert(steps * scale <= significand < (steps + 1) * scale) by (nonlinear_arith)
            requires
                significand == scale * steps + significand % scale,
                0 <= significand % scale < scale,
        ;
    }
}

/// What is negative or not a number is told to the host as nothing, and what is infinite as the
/// most.
pub proof fn other_levels_are_told_as_nothing_or_the_most(level: Level)
    ensures
        level.bits >= 0x8000_0000 ==> level.in_4096ths() == 0,
        0x7f80_0000 < level.bits < 0x8000_0000 ==> level.in_4096ths() == 0,
        level.bits == 0x7f80_0000 ==> level.in_4096ths() == u64::MAX,
{
    let bits = level.bits;
    assert(0x7f80_0000u32 <= bits && bits < 0x8000_0000u32 ==> (bits / 0x80_0000) % 0x100 == 255
        && bits % 0x80_0000 == bits - 0x7f80_0000) by (bit_vector);
}

/// The host is told the steps in the upper half of a number whose lower half is empty, as far as
/// they fit there.
pub proof fn steps_stand_in_the_upper_half(level: Level)
    ensures
        level.spec_controller_value() % 0x1_0000_0000 == 0,
        level.in_4096ths() < 0x1_0000_0000 ==> level.spec_controller_value() == level.in_4096ths()
            * 0x1_0000_0000,
        level.spec_controller_value() / 0x1_0000_0000 == level.in_4096ths() % 0x1_0000_0000,
{
}

/// Which levels lie in the unit range, without one and with it, which are finite, and that zero is
/// the only one that loses a sign.
pub proof fn ranges_of_levels(level: Level)
    ensures
        level.in_unit_range() <==> level.bits < 0x3f80_0000,
        level.in_closed_unit_range() <==> level.bits <= 0x3f80_0000 || level.bits == 0x8000_0000,
        level.finite() <==> level.bits < 0x7f80_0000 || 0x8000_0000 <= level.bits < 0xff80_0000,
        level.bits != 0x8000_0000 ==> level.spec_unsigned_zero() == level,
        level.bits == 0x8000_0000 ==> level.spec_unsigned_zero().bits == 0,
{
    let bits = level.bits;
    assert((bits / 0x80_0000) % 0x100 != 255 <==> (bits < 0x7f80_0000u32 || (0x8000_0000u32 <= bits
        && bits < 0xff80_0000u32))) by (bit_vector);
}

} // verus!
