use pdf_to_image::decimal::{decimal_width, push_decimal, push_zero_padded};

fn written(n: u128) -> String {
    let mut out = String::new();
    push_decimal(&mut out, n);
    out
}

fn padded(n: u32, width: usize) -> String {
    let mut out = String::new();
    push_zero_padded(&mut out, n, width);
    out
}

#[test]
fn zero_is_written_as_one_digit() {
    assert_eq!(written(0), "0");
}

#[test]
fn single_digits_are_written() {
    let expected = ["0", "1", "2", "3", "4", "5", "6", "7", "8", "9"];
    for (n, text) in expected.iter().enumerate() {
        assert_eq!(written(n as u128), *text);
    }
}

#[test]
fn numbers_are_written_most_significant_digit_first() {
    assert_eq!(written(10), "10");
    assert_eq!(written(1203), "1203");
    assert_eq!(written(1_700_000_000_123), "1700000000123");
}

#[test]
fn largest_number_is_written() {
    assert_eq!(written(u128::MAX), "340282366920938463463374607431768211455");
    assert_eq!(written(u128::MAX), u128::MAX.to_string());
}

#[test]
fn push_decimal_keeps_what_was_there() {
    let mut out = String::from("page ");
    push_decimal(&mut out, 42);
    assert_eq!(out, "page 42");
}

#[test]
fn push_decimal_agrees_with_std() {
    for n in [0u128, 9, 10, 99, 100, 101, 999, 1000, 65_535, 4_294_967_296] {
        assert_eq!(written(n), n.to_string());
    }
}

#[test]
fn width_counts_digits() {
    assert_eq!(decimal_width(0), 1);
    assert_eq!(decimal_width(1), 1);
    assert_eq!(decimal_width(9), 1);
    assert_eq!(decimal_width(10), 2);
    assert_eq!(decimal_width(99), 2);
    assert_eq!(decimal_width(100), 3);
    assert_eq!(decimal_width(2_147_483_647), 10);
    assert_eq!(decimal_width(u32::MAX), 10);
}

#[test]
fn width_is_one_more_than_the_decimal_logarithm() {
    for n in [1u32, 5, 9, 10, 11, 99, 100, 12_345, 999_999, 1_000_000] {
        assert_eq!(decimal_width(n), (n.ilog10() + 1) as usize);
    }
}

#[test]
fn padding_fills_up_with_zeros() {
    assert_eq!(padded(7, 3), "007");
    assert_eq!(padded(42, 3), "042");
    assert_eq!(padded(0, 2), "00");
}

#[test]
fn padding_leaves_a_number_of_full_width_alone() {
    assert_eq!(padded(123, 3), "123");
    assert_eq!(padded(5, 1), "5");
}

#[test]
fn padding_never_cuts_a_number() {
    assert_eq!(padded(1234, 2), "1234");
    assert_eq!(padded(8, 0), "8");
}

#[test]
fn padding_agrees_with_std() {
    for width in 0usize..6 {
        for n in [0u32, 3, 10, 999, 1000, 54_321] {
            assert_eq!(padded(n, width), format!("{:0width$}", n));
        }
    }
}

#[test]
fn padded_numbers_of_a_range_have_one_length() {
    let width = decimal_width(250);
    for n in 1u32..=250 {
        assert_eq!(padded(n, width).len(), 3);
    }
}

#[test]
fn push_zero_padded_keeps_what_was_there() {
    let mut out = String::from("x-");
    push_zero_padded(&mut out, 4, 2);
    assert_eq!(out, "x-04");
}
