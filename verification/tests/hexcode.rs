use color_picker::fixed::ONE;
use color_picker::hexcode::{decode, encode, parse, DecodeError};
use color_picker::rgb::Rgb;

#[test]
fn three_digits_are_no_colour() {
    assert!(parse("#fff").is_err());
    assert_eq!(parse("#fff"), Err(DecodeError::OddLength));
    assert_eq!(decode("fff"), Err(DecodeError::OddLength));
}

#[test]
fn white_and_black_decode() {
    let white = parse("#ffffff").unwrap();
    assert_eq!(white, [255, 255, 255]);
    assert_eq!(Rgb::from_bytes(white).to_rgb(), [ONE, ONE, ONE]);
    let black = parse("#000000").unwrap();
    assert_eq!(black, [0, 0, 0]);
    assert_eq!(Rgb::from_bytes(black).to_rgb(), [0, 0, 0]);
}

#[test]
fn digits_decode_in_either_case() {
    assert_eq!(parse("#ff8000"), Ok([255, 128, 0]));
    assert_eq!(parse("#FF8000"), Ok([255, 128, 0]));
    assert_eq!(parse("#Ff80aB"), Ok([255, 128, 171]));
    assert_eq!(parse("#0a1B2c"), Ok([10, 27, 44]));
    assert_eq!(decode("123456"), Ok([0x12, 0x34, 0x56]));
    assert_eq!(decode("abcdef"), Ok([0xab, 0xcd, 0xef]));
    assert_eq!(decode("ABCDEF"), Ok([0xab, 0xcd, 0xef]));
}

#[test]
fn encode_writes_a_sign_and_six_lower_case_digits() {
    assert_eq!(encode([255, 0, 128]), "#ff0080");
    assert_eq!(encode([0, 0, 0]), "#000000");
    assert_eq!(encode([0xab, 0xcd, 0xef]), "#abcdef");
    assert_eq!(encode([1, 2, 3]), "#010203");
}

#[test]
fn a_text_without_the_sign_is_refused() {
    assert_eq!(parse(""), Err(DecodeError::MissingPrefix));
    assert_eq!(parse("ffffff"), Err(DecodeError::MissingPrefix));
    assert_eq!(parse("xffffff"), Err(DecodeError::MissingPrefix));
    assert_eq!(parse(" #ffffff"), Err(DecodeError::MissingPrefix));
}

#[test]
fn an_odd_number_of_digits_is_refused_first() {
    assert_eq!(parse("#f"), Err(DecodeError::OddLength));
    assert_eq!(parse("#fffff"), Err(DecodeError::OddLength));
    assert_eq!(parse("#ggg"), Err(DecodeError::OddLength));
    assert_eq!(decode("fffffff"), Err(DecodeError::OddLength));
}

#[test]
fn the_first_byte_that_is_no_digit_is_reported() {
    assert_eq!(parse("#00000g"), Err(DecodeError::InvalidCharacter { c: 'g', index: 5 }));
    assert_eq!(parse("#0x00zz"), Err(DecodeError::InvalidCharacter { c: 'x', index: 1 }));
    assert_eq!(parse("#ff ff "), Err(DecodeError::InvalidCharacter { c: ' ', index: 2 }));
    assert_eq!(parse("##fffff"), Err(DecodeError::InvalidCharacter { c: '#', index: 0 }));
    assert_eq!(decode("12345-"), Err(DecodeError::InvalidCharacter { c: '-', index: 5 }));
    assert_eq!(decode("zz"), Err(DecodeError::InvalidCharacter { c: 'z', index: 0 }));
}

#[test]
fn digits_for_other_than_three_bytes_are_refused() {
    assert_eq!(parse("#"), Err(DecodeError::InvalidLength));
    assert_eq!(parse("#ff"), Err(DecodeError::InvalidLength));
    assert_eq!(parse("#ffff"), Err(DecodeError::InvalidLength));
    assert_eq!(parse("#ffffffff"), Err(DecodeError::InvalidLength));
    assert_eq!(decode(""), Err(DecodeError::InvalidLength));
    assert_eq!(decode("ffffffffff"), Err(DecodeError::InvalidLength));
}

#[test]
fn a_character_outside_ascii_is_refused() {
    assert_eq!(parse("#ff\u{e9}fff"), Err(DecodeError::NotAscii));
    assert_eq!(parse("\u{e9}"), Err(DecodeError::NotAscii));
    assert_eq!(parse("#\u{ff11}23456"), Err(DecodeError::NotAscii));
    assert_eq!(decode("fffff\u{e9}"), Err(DecodeError::NotAscii));
}

#[test]
fn parse_reads_back_what_encode_writes() {
    for r in [0u8, 1, 9, 10, 15, 16, 127, 128, 200, 254, 255] {
        for g in [0u8, 7, 99, 160, 255] {
            for b in [0u8, 31, 171, 255] {
                let text = encode([r, g, b]);
                assert_eq!(text.len(), 7);
                assert_eq!(parse(&text), Ok([r, g, b]));
                assert_eq!(decode(&text[1..]), Ok([r, g, b]));
            }
        }
    }
}

#[test]
fn the_codec_agrees_with_the_hex_crate() {
    for bytes in [[0u8, 0, 0], [18, 52, 86], [171, 205, 239], [255, 255, 255]] {
        assert_eq!(encode(bytes), format!("#{}", hex::encode(bytes)));
        assert_eq!(decode(&hex::encode_upper(bytes)), Ok(bytes));
    }
    assert!(hex::decode("fff").is_err());
    assert!(decode("fff").is_err());
}
