use huemanity::text::{parse_u8, push_decimal, to_decimal};

#[test]
fn numerals_have_no_sign_and_no_leading_zero() {
    assert_eq!(to_decimal(0), "0");
    assert_eq!(to_decimal(7), "7");
    assert_eq!(to_decimal(10), "10");
    assert_eq!(to_decimal(255), "255");
    assert_eq!(to_decimal(1009), "1009");
    assert_eq!(to_decimal(u64::MAX), "18446744073709551615");
}

#[test]
fn push_decimal_appends() {
    let mut out = "lights/".to_string();
    push_decimal(&mut out, 42);
    assert_eq!(out, "lights/42");
}

#[test]
fn parse_u8_reads_what_to_decimal_writes() {
    for n in 0..=255u64 {
        assert_eq!(parse_u8(&to_decimal(n)), Some(n as u8));
    }
}

#[test]
fn parse_u8_rejects_everything_else() {
    for bad in ["", "256", "1000", "01", "00", "+1", "-1", " 1", "1 ", "1.0", "1e0", "a", "1a", "٣"] {
        assert_eq!(parse_u8(bad), None, "{:?}", bad);
    }
    assert_eq!(parse_u8("99999999999999999999999999999"), None);
}
