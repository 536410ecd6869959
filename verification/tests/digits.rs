use qara::digits::{num_str_len, write_u8_decimal, write_usize_decimal};
use qara::text::usize_text;

#[test]
fn num_str_len_counts_digits() {
    assert_eq!(num_str_len(0), 1);
    assert_eq!(num_str_len(9), 1);
    assert_eq!(num_str_len(10), 2);
    assert_eq!(num_str_len(99), 2);
    assert_eq!(num_str_len(100), 3);
    assert_eq!(num_str_len(75), 2);
    assert_eq!(num_str_len(999_999_999), 9);
    assert_eq!(num_str_len(usize::MAX), usize::MAX.to_string().len());
}

#[test]
fn write_usize_decimal_appends_digits() {
    let mut out = b"x".to_vec();
    assert_eq!(write_usize_decimal(&mut out, 0), 1);
    assert_eq!(out, b"x0");
    let mut out = Vec::new();
    assert_eq!(write_usize_decimal(&mut out, 4096), 4);
    assert_eq!(out, b"4096");
    let mut out = Vec::new();
    assert_eq!(write_usize_decimal(&mut out, 99_999_999), 8);
    assert_eq!(out, b"99999999");
}

#[test]
fn decimal_lengths_agree() {
    for v in [0usize, 7, 10, 123, 65535, 1_000_000] {
        let mut out = Vec::new();
        assert_eq!(write_usize_decimal(&mut out, v), num_str_len(v));
        assert_eq!(out, v.to_string().into_bytes());
    }
}

#[test]
fn write_u8_decimal_uses_one_to_three_digits() {
    for v in 0..=255u8 {
        let mut out = Vec::new();
        let n = write_u8_decimal(&mut out, v);
        assert_eq!(out, v.to_string().into_bytes());
        assert_eq!(n, out.len());
    }
}

#[test]
fn usize_text_is_decimal() {
    assert_eq!(usize_text(0), "0");
    assert_eq!(usize_text(42), "42");
    assert_eq!(usize_text(usize::MAX), usize::MAX.to_string());
}
