use color_picker::decimal::{
    parse_bytes, parse_decimal, push_fixed, push_number, push_padded, WHOLE_MAX,
};
use color_picker::fixed::ONE;

fn fixed(v: i64, places: usize) -> String {
    let mut text = String::new();
    push_fixed(&mut text, v, places);
    text
}

#[test]
fn plain_decimals_are_read_in_millionths() {
    assert_eq!(parse_decimal("0"), Some(0));
    assert_eq!(parse_decimal("1"), Some(ONE));
    assert_eq!(parse_decimal("0.5"), Some(500_000));
    assert_eq!(parse_decimal("370"), Some(370 * ONE));
    assert_eq!(parse_decimal("-0.25"), Some(-250_000));
    assert_eq!(parse_decimal("+0.25"), Some(250_000));
    assert_eq!(parse_decimal(".5"), Some(500_000));
    assert_eq!(parse_decimal("5."), Some(5 * ONE));
    assert_eq!(parse_decimal("-.5"), Some(-500_000));
    assert_eq!(parse_decimal("007.000001"), Some(7_000_001));
    assert_eq!(parse_decimal("0.000001"), Some(1));
    assert_eq!(parse_decimal("-0"), Some(0));
    assert_eq!(parse_decimal("12.3456"), Some(12_345_600));
}

#[test]
fn digits_after_the_sixth_place_are_cut_off() {
    assert_eq!(parse_decimal("0.1234567"), Some(123_456));
    assert_eq!(parse_decimal("0.9999999"), Some(999_999));
    assert_eq!(parse_decimal("-0.0000009"), Some(0));
    assert_eq!(parse_decimal("1.00000000000000000000000000000000000001"), Some(ONE));
}

#[test]
fn text_that_is_no_plain_decimal_gives_nothing() {
    for text in [
        "", "abc", "-", "+", ".", "-.", "+.", "1.2.3", "1..2", "1e5", "1E5", "0x10", " 1", "1 ",
        "--1", "+-1", "1-", "1,5", "NaN", "inf", "infinity", "1_000", "\u{ff11}", "1\u{e9}",
        "\u{660}",
    ] {
        assert_eq!(parse_decimal(text), None);
    }
}

#[test]
fn empty_text_a_word_and_a_lone_sign_give_nothing() {
    assert_eq!(parse_decimal(""), None);
    assert_eq!(parse_decimal("abc"), None);
    assert_eq!(parse_decimal("-"), None);
}

#[test]
fn the_whole_part_has_a_limit() {
    assert_eq!(parse_decimal("1000000000000"), Some(WHOLE_MAX * ONE));
    assert_eq!(parse_decimal("1000000000000.999999"), Some(WHOLE_MAX * ONE + 999_999));
    assert_eq!(parse_decimal("-1000000000000.999999"), Some(-(WHOLE_MAX * ONE + 999_999)));
    assert_eq!(parse_decimal("1000000000001"), None);
    assert_eq!(parse_decimal("99999999999999999999999999999999999999999999"), None);
    assert_eq!(parse_decimal("0000000000000000000000000000000000000000001"), Some(ONE));
}

#[test]
fn bytes_are_read_as_text_is() {
    assert_eq!(parse_bytes(b"0.5"), Some(500_000));
    assert_eq!(parse_bytes(b"-12.5"), Some(-12_500_000));
    assert_eq!(parse_bytes(b""), None);
    assert_eq!(parse_bytes(&[0x31, 0xc3, 0xa9]), None);
}

#[test]
fn whole_numbers_are_written_without_leading_zeros() {
    let mut text = String::from("n=");
    push_number(&mut text, 0);
    text.push(' ');
    push_number(&mut text, 7);
    text.push(' ');
    push_number(&mut text, 1_234_567_890);
    text.push(' ');
    push_number(&mut text, u64::MAX);
    assert_eq!(text, "n=0 7 1234567890 18446744073709551615");
}

#[test]
fn padded_numbers_keep_their_width() {
    let mut text = String::new();
    push_padded(&mut text, 7, 3);
    text.push(' ');
    push_padded(&mut text, 1234, 3);
    text.push(' ');
    push_padded(&mut text, 5, 0);
    text.push(' ');
    push_padded(&mut text, 0, 2);
    assert_eq!(text, "007 234  00");
}

#[test]
fn fixed_decimals_round_to_their_places() {
    assert_eq!(fixed(1_500_000, 3), "1.500");
    assert_eq!(fixed(1_500_000, 0), "2");
    assert_eq!(fixed(1_499_999, 0), "1");
    assert_eq!(fixed(-250_000, 3), "-0.250");
    assert_eq!(fixed(-250_500, 3), "-0.251");
    assert_eq!(fixed(-400, 3), "0.000");
    assert_eq!(fixed(-500, 3), "-0.001");
    assert_eq!(fixed(0, 6), "0.000000");
    assert_eq!(fixed(123_456_789, 6), "123.456789");
    assert_eq!(fixed(359_950_000, 1), "360.0");
    assert_eq!(fixed(359_949_999, 1), "359.9");
    assert_eq!(fixed(628_449, 3), "0.628");
    assert_eq!(fixed(1_000_000_000_000_000, 2), "1000000000.00");
}

#[test]
fn what_is_written_with_six_places_is_read_back() {
    for v in [0, 1, -1, 999_999, -999_999, ONE, 123_456_789, -400_000, 359_999_999] {
        assert_eq!(parse_decimal(&fixed(v, 6)), Some(v));
    }
}

#[test]
fn what_is_written_reads_back_rounded_to_its_places() {
    assert_eq!(parse_decimal(&fixed(359_949_999, 1)), Some(359_900_000));
    assert_eq!(parse_decimal(&fixed(359_950_000, 1)), Some(360_000_000));
    assert_eq!(parse_decimal(&fixed(-250_500, 3)), Some(-251_000));
    assert_eq!(parse_decimal(&fixed(-400, 3)), Some(0));
    assert_eq!(parse_decimal(&fixed(1_499_999, 0)), Some(ONE));
    assert_eq!(parse_decimal(&fixed(-1_000_000_000_000_000, 2)), Some(-1_000_000_000_000_000));
}
