use watl::confidence::{parse_confidence_ppm, ppm_to_decimal};

#[test]
fn parse_accepts_unit_interval_numerals() {
    assert_eq!(parse_confidence_ppm("0"), Some(0));
    assert_eq!(parse_confidence_ppm("1"), Some(1_000_000));
    assert_eq!(parse_confidence_ppm("0.5"), Some(500_000));
    assert_eq!(parse_confidence_ppm("0.25"), Some(250_000));
    assert_eq!(parse_confidence_ppm("0.123456"), Some(123_456));
    assert_eq!(parse_confidence_ppm("0.000001"), Some(1));
    assert_eq!(parse_confidence_ppm("1.0"), Some(1_000_000));
    assert_eq!(parse_confidence_ppm("1.000000"), Some(1_000_000));
    assert_eq!(parse_confidence_ppm("00.25"), Some(250_000));
    assert_eq!(parse_confidence_ppm("0.196078431372549"), Some(196_078));
}

#[test]
fn parse_cuts_digits_beyond_the_sixth() {
    assert_eq!(parse_confidence_ppm("0.1234567"), Some(123_456));
    assert_eq!(parse_confidence_ppm("0.9999999"), Some(999_999));
}

#[test]
fn parse_rejects_values_above_one() {
    assert_eq!(parse_confidence_ppm("2"), None);
    assert_eq!(parse_confidence_ppm("1.000001"), None);
    assert_eq!(parse_confidence_ppm("10"), None);
    assert_eq!(parse_confidence_ppm("999999999999999999999"), None);
}

#[test]
fn parse_rejects_malformed_numerals() {
    assert_eq!(parse_confidence_ppm(""), None);
    assert_eq!(parse_confidence_ppm("."), None);
    assert_eq!(parse_confidence_ppm("0."), None);
    assert_eq!(parse_confidence_ppm(".5"), None);
    assert_eq!(parse_confidence_ppm("0.5.1"), None);
    assert_eq!(parse_confidence_ppm("-0.5"), None);
    assert_eq!(parse_confidence_ppm("0.5e1"), None);
    assert_eq!(parse_confidence_ppm("abc"), None);
    assert_eq!(parse_confidence_ppm("0. 5"), None);
}

#[test]
fn render_gives_canonical_numerals() {
    assert_eq!(ppm_to_decimal(0), "0");
    assert_eq!(ppm_to_decimal(1_000_000), "1");
    assert_eq!(ppm_to_decimal(500_000), "0.5");
    assert_eq!(ppm_to_decimal(123_456), "0.123456");
    assert_eq!(ppm_to_decimal(120_000), "0.12");
    assert_eq!(ppm_to_decimal(1), "0.000001");
    assert_eq!(ppm_to_decimal(999_999), "0.999999");
}

#[test]
fn render_then_parse_is_identity() {
    let samples: Vec<u32> = vec![0, 1, 9, 10, 123, 1_000, 123_456, 500_000, 999_999, 1_000_000];
    for ppm in samples {
        let text = ppm_to_decimal(ppm);
        assert_eq!(parse_confidence_ppm(&text), Some(ppm));
    }
}
