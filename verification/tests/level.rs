use emilydotgg_random::level::{Level, ONE_BITS};

fn level(value: f32) -> Level {
    Level { bits: value.to_bits() }
}

fn expected(value: f32) -> u64 {
    ((value * 0x1000 as f32) as u64) << 32
}

#[test]
fn controller_values_of_plain_levels() {
    assert_eq!(level(0.0).controller_value(), 0);
    assert_eq!(level(0.5).controller_value(), 2048 << 32);
    assert_eq!(level(0.25).controller_value(), 1024 << 32);
    assert_eq!(level(1.0).controller_value(), 4096 << 32);
    assert_eq!(level(0.1).controller_value(), 409 << 32);
    assert_eq!(level(0.9999999).controller_value(), 4095 << 32);
}

#[test]
fn controller_values_at_the_edges() {
    assert_eq!(level(-0.0).controller_value(), 0);
    assert_eq!(level(-0.75).controller_value(), 0);
    assert_eq!(level(f32::NAN).controller_value(), 0);
    assert_eq!(level(f32::NEG_INFINITY).controller_value(), 0);
    assert_eq!(level(f32::INFINITY).controller_value(), 0xffff_ffff_0000_0000);
    assert_eq!(level(f32::MAX).controller_value(), 0xffff_ffff_0000_0000);
    assert_eq!(level(f32::MIN_POSITIVE).controller_value(), 0);
    assert_eq!(Level { bits: 1 }.controller_value(), 0);
    // The 4096ths no longer fit in the upper half.
    assert_eq!(level(1048576.0).controller_value(), 0);
    assert_eq!(level(1048577.0).controller_value(), 4096 << 32);
}

#[test]
fn controller_values_agree_with_single_precision_arithmetic() {
    let mut bits: u32 = 0;
    loop {
        let value = f32::from_bits(bits);
        assert_eq!(Level { bits }.controller_value(), expected(value), "{bits:#x}");
        match bits.checked_add(9973) {
            Some(next) => bits = next,
            None => break,
        }
    }
    for exponent in 0..=255u32 {
        for fraction in [0u32, 1, 2, 0x40_0000, 0x7f_fffe, 0x7f_ffff] {
            for sign in [0u32, 1] {
                let bits = sign << 31 | exponent << 23 | fraction;
                let value = f32::from_bits(bits);
                assert_eq!(Level { bits }.controller_value(), expected(value), "{bits:#x}");
            }
        }
    }
}

#[test]
fn unit_range_ends_below_one() {
    assert_eq!(ONE_BITS, 1.0f32.to_bits());
    assert_eq!(f32::from_bits(ONE_BITS - 1), 1.0 - f32::EPSILON / 2.0);
    assert_eq!(Level { bits: ONE_BITS - 1 }.controller_value(), 4095 << 32);
}

#[test]
fn greater_levels_give_no_lower_values() {
    let mut last = 0;
    for step in 0..=1000 {
        let value = level(step as f32 / 1000.0).controller_value();
        assert!(value >= last);
        last = value;
    }
}

#[test]
fn zero_level_is_zero() {
    assert_eq!(Level::zero(), level(0.0));
}

#[test]
fn finite_levels_and_unsigned_zero() {
    for value in [0.0, -0.0, 0.5, -3.0, f32::MAX, f32::MIN, f32::MIN_POSITIVE] {
        assert!(level(value).is_finite());
    }
    for value in [f32::INFINITY, f32::NEG_INFINITY, f32::NAN] {
        assert!(!level(value).is_finite());
        assert_eq!(level(value).unsigned_zero(), level(value));
    }
    assert_eq!(level(-0.0).unsigned_zero(), level(0.0));
    assert_eq!(level(0.0).unsigned_zero(), level(0.0));
    assert_eq!(level(-0.5).unsigned_zero(), level(-0.5));
}
