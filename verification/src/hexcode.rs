//! Colours as hexadecimal text: a number sign and six hexadecimal digits,
//! two for each of red, green and blue.

use vstd::prelude::*;
use vstd::slice::slice_subrange;
use vstd::string::StringExecFns;
use vstd::string::StringSliceAdditionalSpecFns;
use vstd::utf8::{is_ascii_chars, is_ascii_chars_encode_utf8};
use crate::decimal::ascii_bytes;

verus! {

/// Why a text is no hexadecimal colour.
#[derive(Clone, Copy, Debug, PartialEq, Eq, Structural)]
pub enum DecodeError {
    /// The text holds a character outside ASCII.
    NotAscii,
    /// The text does not begin with a number sign.
    MissingPrefix,
    /// The digits are odd in number, so the last one has no partner.
    OddLength,
    /// The byte at `index` among the digits, `c` as a character, is no
    /// hexadecimal digit.
    InvalidCharacter { c: char, index: usize },
    /// The digits write some number of bytes other than three.
    InvalidLength,
}

/// The value of a hexadecimal digit in either case, if the byte is one.
pub open spec fn hex_digit_value(b: u8) -> Option<int> {
    if 48 <= b <= 57 {
        Some(b - 48)
    } else if 65 <= b <= 70 {
        Some(b - 55)
    } else if 97 <= b <= 102 {
        Some(b - 87)
    } else {
        None
    }
}

/// Whether every byte is a hexadecimal digit.
pub open spec fn all_hex(s: Seq<u8>) -> bool {
    forall|i: int| 0 <= i < s.len() ==> hex_digit_value(#[trigger] s[i]) is Some
}

/// The index of the first byte that is no hexadecimal digit, or the length
/// of `s` if every byte is one.
pub open spec fn first_invalid(s: Seq<u8>) -> int
    decreases s.len(),
{
    if s.len() == 0 || hex_digit_value(s[0]) is None {
        0
    } else {
        1 + first_invalid(s.drop_first())
    }
}

/// The byte that the pair of digits at `2 * i` and `2 * i + 1` writes.
pub open spec fn pair_value(s: Seq<u8>, i: int) -> u8 {
    (16 * hex_digit_value(s[2 * i]).unwrap() + hex_digit_value(s[2 * i + 1]).unwrap()) as u8
}

/// The bytes that a run of hexadecimal digits writes, a pair of digits to a
/// byte. An odd number of digits is refused first, then the first byte that
/// is no digit.
pub open spec fn decoded(s: Seq<u8>) -> Result<Seq<u8>, DecodeError> {
    if s.len() % 2 != 0 {
        Err(DecodeError::OddLength)
    } else if !all_hex(s) {
        Err(
            DecodeError::InvalidCharacter {
                c: s[first_invalid(s)] as char,
                index: first_invalid(s) as usize,
            },
        )
    } else {
        Ok(Seq::new((s.len() / 2) as nat, |i: int| pair_value(s, i)))
    }
}

/// The three bytes that six hexadecimal digits write. Digits that write
/// fewer or more bytes are refused.
pub open spec fn decoded_color(s: Seq<u8>) -> Result<Seq<u8>, DecodeError> {
    match decoded(s) {
        Ok(bytes) => if bytes.len() == 3 {
            Ok(bytes)
        } else {
            Err(DecodeError::InvalidLength)
        },
        Err(e) => Err(e),
    }
}

/// The three bytes that a number sign and six hexadecimal digits write.
pub open spec fn parsed_color(s: Seq<u8>) -> Result<Seq<u8>, DecodeError> {
    if s.len() == 0 || s[0] != 35 {
        Err(DecodeError::MissingPrefix)
    } else {
        decoded_color(s.skip(1))
    }
}

/// The three bytes that a text of six hexadecimal digits writes. A text
/// with a character outside ASCII is refused before anything else.
pub open spec fn decoded_text(text: Seq<char>) -> Result<Seq<u8>, DecodeError> {
    if is_ascii_chars(text) {
        decoded_color(ascii_bytes(text))
    } else {
        Err(DecodeError::NotAscii)
    }
}

/// The three bytes that a text of a number sign and six hexadecimal digits
/// writes. A text with a character outside ASCII is refused before anything
/// else.
pub open spec fn parsed_hex(text: Seq<char>) -> Result<Seq<u8>, DecodeError> {
    if is_ascii_chars(text) {
        parsed_color(ascii_bytes(text))
    } else {
        Err(DecodeError::NotAscii)
    }
}

/// Digits other than six in number write no colour.
pub proof fn lemma_wrong_length_fails(s: Seq<u8>)
    requires
        s.len() != 6,
    ensures
        decoded_color(s) is Err,
{
}

/// The lower-case hexadecimal digit of a value below sixteen.
pub open spec fn hex_char(n: int) -> char {
    if n < 10 {
        (48 + n) as char
    } else {
        (87 + n) as char
    }
}

/// The hexadecimal digits of a run of bytes, two lower-case digits to a
/// byte, the high half first.
pub open spec fn encoded(bytes: Seq<u8>) -> Seq<char> {
    Seq::new(
        2 * bytes.len(),
        |i: int|
            if i % 2 == 0 {
                hex_char((bytes[i / 2] as int) / 16)
            } else {
                hex_char((bytes[i / 2] as int) % 16)
            },
    )
}

/// What a decoding gave, the bytes as a sequence.
pub open spec fn bytes_outcome(res: Result<Vec<u8>, DecodeError>) -> Result<Seq<u8>, DecodeError> {
    match res {
        Ok(bytes) => Ok(bytes@),
        Err(e) => Err(e),
    }
}

/// What the decoding of a colour gave, the three bytes as a sequence.
pub open spec fn color_outcome(res: Result<[u8; 3], DecodeError>) -> Result<
    Seq<u8>,
    DecodeError,
> {
    match res {
        Ok(rgb) => Ok(rgb@),
        Err(e) => Err(e),
    }
}

/// Calls `hex::decode` on a run of bytes and names its error in this
/// library's terms. Trusted: the result is what `decoded` says. The outside
/// function refuses an odd length before it reads a digit, then reads the
/// pairs in order and stops at the first byte that is no digit, which it
/// reports with its index; otherwise each pair gives sixteen times the
/// first digit plus the second.
#[verifier::external_body]
fn decode_pairs(digits: &[u8]) -> (res: Result<Vec<u8>, DecodeError>)
    ensures
        bytes_outcome(res) == decoded(digits@),
{
    match hex::decode(digits) {
        Ok(bytes) => Ok(bytes),
        Err(hex::FromHexError::InvalidHexCharacter { c, index }) => Err(
            DecodeError::InvalidCharacter { c, index },
        ),
        Err(hex::FromHexError::OddLength) => Err(DecodeError::OddLength),
        Err(hex::FromHexError::InvalidStringLength) => Err(DecodeError::InvalidLength),
    }
}

/// Calls `hex::encode` on a run of bytes. Trusted: the result is what
/// `encoded` says, two lower-case digits for each byte, the high half
/// first.
#[verifier::external_body]
fn encode_pairs(bytes: &[u8]) -> (res: String)
    ensures
        res@ == encoded(bytes@),
{
    hex::encode(bytes)
}

/// Reads three bytes from the bytes of six hexadecimal digits.
fn decode_bytes(digits: &[u8]) -> (res: Result<[u8; 3], DecodeError>)
    ensures
        color_outcome(res) == decoded_color(digits@),
{
    match decode_pairs(digits) {
        Ok(bytes) => {
            if bytes.len() == 3 {
                let rgb = [bytes[0], bytes[1], bytes[2]];
                assert(rgb@ =~= bytes@);
                Ok(rgb)
            } else {
                Err(DecodeError::InvalidLength)
            }
        },
        Err(e) => Err(e),
    }
}

/// Reads red, green and blue from six hexadecimal digits in either case,
/// the number sign already taken off. Fails on a character outside ASCII,
/// on an odd number of digits, on a character that is no digit, and on any
/// number of digits but six.
pub fn decode(digits: &str) -> (res: Result<[u8; 3], DecodeError>)
    ensures
        color_outcome(res) == decoded_text(digits@),
        digits@.len() != 6 ==> res is Err,
{
    if !digits.is_ascii() {
        return Err(DecodeError::NotAscii);
    }
    proof {
        is_ascii_chars_encode_utf8(digits@);
        if digits@.len() != 6 {
            lemma_wrong_length_fails(ascii_bytes(digits@));
        }
    }
    decode_bytes(digits.as_bytes())
}

/// Reads red, green and blue from a number sign and six hexadecimal digits.
/// Fails as `decode` does, and on a text without the number sign; so every
/// text of other than seven characters fails.
pub fn parse(text: &str) -> (res: Result<[u8; 3], DecodeError>)
    ensures
        color_outcome(res) == parsed_hex(text@),
        text@.len() != 7 ==> res is Err,
{
    if !text.is_ascii() {
        return Err(DecodeError::NotAscii);
    }
    let bytes = text.as_bytes();
    proof {
        is_ascii_chars_encode_utf8(text@);
    }
    let n = bytes.len();
    if n == 0 || bytes[0] != 35 {
        return Err(DecodeError::MissingPrefix);
    }
    let digits = slice_subrange(bytes, 1, n);
    proof {
        if text@.len() != 7 {
            lemma_wrong_length_fails(digits@);
        }
    }
    decode_bytes(digits)
}

/// Writes red, green and blue as a number sign and six lower-case
/// hexadecimal digits.
pub fn encode(rgb: [u8; 3]) -> (res: String)
    ensures
        res@ == seq!['#'] + encoded(rgb@),
{
    proof {
        reveal_strlit("#");
    }
    let digits = encode_pairs(rgb.as_slice());
    String::from_str("#").concat(digits.as_str())
}

/// The first invalid byte is one: it lies within the run unless every byte
/// is a hexadecimal digit, it is no digit, and every byte before it is.
pub proof fn lemma_first_invalid(s: Seq<u8>)
    ensures
        0 <= first_invalid(s) <= s.len(),
        first_invalid(s) == s.len() <==> all_hex(s),
        first_invalid(s) < s.len() ==> hex_digit_value(s[first_invalid(s)]) is None,
        forall|i: int| 0 <= i < first_invalid(s) ==> hex_digit_value(#[trigger] s[i]) is Some,
    decreases s.len(),
{
    if s.len() > 0 && hex_digit_value(s[0]) is Some {
        let t = s.drop_first();
        lemma_first_invalid(t);
        assert forall|i: int| 0 <= i < first_invalid(s) implies hex_digit_value(
            #[trigger] s[i],
        ) is Some by {
            if i > 0 {
                assert(s[i] == t[i - 1]);
            }
        }
    }
}

/// The digit written for a value below sixteen reads back as that value.
proof fn lemma_hex_char_reads_back(n: int)
    requires
        0 <= n < 16,
    ensures
        hex_digit_value(hex_char(n) as u8) == Some(n),
{
}

/// What `encode` writes for three bytes, `parse` reads back as the same
/// three bytes.
pub proof fn lemma_parse_inverts_encode(rgb: Seq<u8>)
    requires
        rgb.len() == 3,
    ensures
        parsed_hex(seq!['#'] + encoded(rgb)) == Ok::<Seq<u8>, DecodeError>(rgb),
{
    let text = seq!['#'] + encoded(rgb);
    let bytes = ascii_bytes(text);
    let digits = bytes.skip(1);
    assert forall|i: int| 0 <= i < digits.len() implies hex_digit_value(
        #[trigger] digits[i],
    ) is Some by {
        lemma_hex_char_reads_back((rgb[i / 2] as int) / 16);
        lemma_hex_char_reads_back((rgb[i / 2] as int) % 16);
    }
    let out = Seq::new((digits.len() / 2) as nat, |i: int| pair_value(digits, i));
    assert forall|i: int| 0 <= i < 3 implies out[i] == rgb[i] by {
        lemma_hex_char_reads_back((rgb[i] as int) / 16);
        lemma_hex_char_reads_back((rgb[i] as int) % 16);
    }
    assert(out =~= rgb);
}

} // verus!
