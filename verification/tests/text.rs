use emilydotgg_random::text::{decimal_text, signed_decimal_text};

#[test]
fn numbers_are_written_in_decimal() {
    for n in [0u64, 1, 9, 10, 42, 99, 100, 1234567890, u64::MAX] {
        assert_eq!(decimal_text(n), n.to_string());
    }
}

#[test]
fn negative_numbers_have_a_sign() {
    for n in [0i32, 5, -5, -10, 77, i32::MAX, i32::MIN] {
        assert_eq!(signed_decimal_text(n), n.to_string());
    }
}
