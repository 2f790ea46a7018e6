//! Plain decimal text: reading a number in millionths from what a user
//! typed, and writing whole numbers and fixed decimals.

use vstd::prelude::*;
use vstd::string::StringExecFns;
use vstd::string::StringSliceAdditionalSpecFns;
use vstd::utf8::{is_ascii_chars, is_ascii_chars_encode_utf8};
use crate::fixed::{div_round, round_div, ONE};

verus! {

/// The largest whole part that `parse_decimal` accepts.
pub const WHOLE_MAX: i64 = 1_000_000_000_000;

/// The largest magnitude that `push_fixed` writes.
pub const FIXED_MAX: i64 = 1_000_000_000_000_000;

/// The number of decimal places that a number in millionths holds.
pub const PLACES: usize = 6;

/// Whether a byte is an ASCII decimal digit.
pub open spec fn is_digit(b: u8) -> bool {
    48 <= b <= 57
}

/// Whether every byte is an ASCII decimal digit.
pub open spec fn all_digits(s: Seq<u8>) -> bool {
    forall|i: int| 0 <= i < s.len() ==> is_digit(#[trigger] s[i])
}

/// The number of ASCII decimal digits that `s` begins with.
pub open spec fn digit_prefix_len(s: Seq<u8>) -> int
    decreases s.len(),
{
    if s.len() == 0 || !is_digit(s[0]) {
        0
    } else {
        1 + digit_prefix_len(s.drop_first())
    }
}

/// The number that a run of decimal digits writes.
pub open spec fn digits_value(s: Seq<u8>) -> int
    decreases s.len(),
{
    if s.len() == 0 {
        0
    } else {
        10 * digits_value(s.drop_last()) + (s.last() - 48)
    }
}

/// Ten to the power `n`.
pub open spec fn pow10(n: nat) -> int
    decreases n,
{
    if n == 0 {
        1
    } else {
        10 * pow10((n - 1) as nat)
    }
}

/// The millionths that the digits after a decimal point write: the first
/// six count, the rest are cut off.
pub open spec fn micro_of(frac: Seq<u8>) -> int {
    let kept = if frac.len() < PLACES {
        frac.len() as int
    } else {
        PLACES as int
    };
    digits_value(frac.take(kept)) * pow10((PLACES - kept) as nat)
}

/// The length of the sign that `s` begins with: one for `+` or `-`, else
/// zero.
pub open spec fn sign_len(s: Seq<u8>) -> int {
    if s.len() > 0 && (s[0] == 43 || s[0] == 45) {
        1
    } else {
        0
    }
}

/// The number in millionths that a plain decimal writes, if `s` is one: an
/// optional sign, digits, and optionally a point and more digits, with at
/// least one digit in all and a whole part of at most `WHOLE_MAX`. Anything
/// else, the empty text and a lone sign among it, is no number.
pub open spec fn parsed(s: Seq<u8>) -> Option<int> {
    let body = s.skip(sign_len(s));
    let whole = body.take(digit_prefix_len(body));
    let rest = body.skip(digit_prefix_len(body));
    let frac = if rest.len() > 0 && rest[0] == 46 {
        rest.skip(1)
    } else {
        rest
    };
    if !all_digits(frac) || whole.len() + frac.len() == 0 || digits_value(whole) > WHOLE_MAX {
        None
    } else {
        let magnitude = digits_value(whole) * ONE + micro_of(frac);
        if s[0] == 45 {
            Some(-magnitude)
        } else {
            Some(magnitude)
        }
    }
}

/// A run of digits followed by the end or by a byte that is no digit is
/// the whole digit prefix.
pub proof fn lemma_digit_prefix(s: Seq<u8>, k: int)
    requires
        0 <= k <= s.len(),
        all_digits(s.take(k)),
        k < s.len() ==> !is_digit(s[k]),
    ensures
        digit_prefix_len(s) == k,
    decreases k,
{
    if k > 0 {
        assert(s.take(k)[0] == s[0]);
        let t = s.drop_first();
        assert forall|i: int| 0 <= i < t.take(k - 1).len() implies is_digit(
            #[trigger] t.take(k - 1)[i],
        ) by {
            assert(t.take(k - 1)[i] == s.take(k)[i + 1]);
        }
        lemma_digit_prefix(t, k - 1);
    }
}

/// Appending one digit multiplies the value by ten and adds the digit.
proof fn lemma_digits_value_step(s: Seq<u8>, k: int)
    requires
        0 <= k < s.len(),
    ensures
        digits_value(s.take(k + 1)) == 10 * digits_value(s.take(k)) + (s[k] - 48),
{
    assert(s.take(k + 1).drop_last() =~= s.take(k));
}

/// A shorter prefix of a run of digits is a run of digits.
proof fn lemma_all_digits_prefix(s: Seq<u8>, j: int, k: int)
    requires
        0 <= j <= k <= s.len(),
        all_digits(s.take(k)),
    ensures
        all_digits(s.take(j)),
{
}

/// The value of a run of digits is not negative.
proof fn lemma_digits_value_nonnegative(s: Seq<u8>, k: int)
    requires
        0 <= k <= s.len(),
        all_digits(s.take(k)),
    ensures
        0 <= digits_value(s.take(k)),
    decreases k,
{
    if k > 0 {
        lemma_all_digits_prefix(s, k - 1, k);
        lemma_digits_value_nonnegative(s, k - 1);
        lemma_digits_value_step(s, k - 1);
    }
}

/// The value of a run of digits grows with each digit.
proof fn lemma_digits_value_grows(s: Seq<u8>, j: int, k: int)
    requires
        0 <= j <= k <= s.len(),
        all_digits(s.take(k)),
    ensures
        0 <= digits_value(s.take(j)) <= digits_value(s.take(k)),
    decreases k - j,
{
    lemma_all_digits_prefix(s, j, k);
    lemma_digits_value_nonnegative(s, j);
    if j < k {
        lemma_all_digits_prefix(s, k - 1, k);
        lemma_digits_value_grows(s, j, k - 1);
        lemma_digits_value_step(s, k - 1);
    }
}

/// Ten to the power `n`, for the powers that scale a fraction.
fn power_of_ten(n: usize) -> (res: i64)
    requires
        n <= PLACES,
    ensures
        res == pow10(n as nat),
{
    proof {
        reveal_with_fuel(pow10, 7);
    }
    if n == 0 {
        1
    } else if n == 1 {
        10
    } else if n == 2 {
        100
    } else if n == 3 {
        1_000
    } else if n == 4 {
        10_000
    } else if n == 5 {
        100_000
    } else {
        1_000_000
    }
}

/// A run of `k` digits writes a number below ten to the power `k`.
proof fn lemma_digits_value_bound(s: Seq<u8>, k: int)
    requires
        0 <= k <= s.len(),
        all_digits(s.take(k)),
    ensures
        0 <= digits_value(s.take(k)) < pow10(k as nat),
    decreases k,
{
    if k > 0 {
        lemma_all_digits_prefix(s, k - 1, k);
        lemma_digits_value_bound(s, k - 1);
        lemma_digits_value_step(s, k - 1);
    }
}

/// Ten to the power `k` times ten to the power `PLACES - k` is a million.
pub proof fn lemma_pow10_split(k: nat)
    requires
        k <= PLACES,
    ensures
        pow10(k) * pow10((PLACES - k) as nat) == 1_000_000,
        0 < pow10(k) <= 1_000_000,
        0 < pow10((PLACES - k) as nat) <= 1_000_000,
{
    assert(pow10(0) == 1);
    assert(pow10(1) == 10);
    assert(pow10(2) == 100);
    assert(pow10(3) == 1_000);
    assert(pow10(4) == 10_000);
    assert(pow10(5) == 100_000);
}

/// Reads the run of digits that begins at `start`. Gives where the run
/// ends, and the number it writes unless that is over `WHOLE_MAX`.
fn read_whole(bytes: &[u8], start: usize) -> (res: (usize, Option<i64>))
    requires
        start <= bytes@.len(),
    ensures
        start <= res.0 <= bytes@.len(),
        res.0 - start == digit_prefix_len(bytes@.skip(start as int)),
        all_digits(bytes@.skip(start as int).take(res.0 - start)),
        res.1 is Some <==> digits_value(bytes@.skip(start as int).take(res.0 - start))
            <= WHOLE_MAX,
        res.1 matches Some(v) ==> v == digits_value(bytes@.skip(start as int).take(res.0 - start))
            && 0 <= v <= WHOLE_MAX,
{
    let n = bytes.len();
    let ghost body = bytes@.skip(start as int);
    let mut i: usize = start;
    let mut whole: i64 = 0;
    let mut too_large = false;
    while i < n && bytes[i] >= 48 && bytes[i] <= 57
        invariant
            start <= i <= n,
            n == bytes@.len(),
            body == bytes@.skip(start as int),
            all_digits(body.take(i - start)),
            !too_large ==> whole == digits_value(body.take(i - start)) && 0 <= whole <= WHOLE_MAX,
            too_large ==> digits_value(body.take(i - start)) > WHOLE_MAX,
        decreases n - i,
    {
        let d: i64 = (bytes[i] - 48) as i64;
        proof {
            let k = i - start;
            lemma_digits_value_step(body, k);
            lemma_digits_value_grows(body, k, k + 1);
        }
        if !too_large {
            let next: i64 = whole * 10 + d;
            if next > WHOLE_MAX {
                too_large = true;
            } else {
                whole = next;
            }
        }
        i += 1;
    }
    proof {
        lemma_digit_prefix(body, i - start);
    }
    if too_large {
        (i, None)
    } else {
        (i, Some(whole))
    }
}

/// Reads the digits after a decimal point, from `from` to the end. Gives
/// the millionths they write, or nothing if a byte among them is no digit.
fn read_fraction(bytes: &[u8], from: usize) -> (res: Option<i64>)
    requires
        from <= bytes@.len(),
    ensures
        res is Some <==> all_digits(bytes@.skip(from as int)),
        res matches Some(m) ==> m == micro_of(bytes@.skip(from as int)) && 0 <= m < ONE,
{
    let n = bytes.len();
    let ghost frac = bytes@.skip(from as int);
    let mut j: usize = from;
    let mut micro: i64 = 0;
    let mut kept: usize = 0;
    proof {
        lemma_pow10_split(0);
    }
    while j < n
        invariant
            from <= j <= n,
            n == bytes@.len(),
            frac == bytes@.skip(from as int),
            all_digits(frac.take(j - from)),
            kept <= PLACES,
            kept == if j - from < PLACES {
                j - from
            } else {
                PLACES as int
            },
            micro == digits_value(frac.take(kept as int)),
            0 <= micro < pow10(kept as nat),
            micro < 1_000_000,
        decreases n - j,
    {
        let b = bytes[j];
        assert(frac[j - from] == b);
        if b < 48 || b > 57 {
            return None;
        }
        if kept < PLACES {
            proof {
                lemma_pow10_split((kept + 1) as nat);
                lemma_digits_value_step(frac, kept as int);
                lemma_all_digits_prefix(frac, kept + 1, j - from + 1);
                lemma_digits_value_bound(frac, kept + 1);
            }
            micro = micro * 10 + (b - 48) as i64;
            kept += 1;
        }
        j += 1;
    }
    proof {
        assert(frac.take(frac.len() as int) =~= frac);
        lemma_pow10_split(kept as nat);
        let p = pow10(kept as nat);
        let q = pow10((PLACES - kept) as nat);
        assert(0 <= micro * q < 1_000_000) by (nonlinear_arith)
            requires
                0 <= micro < p,
                p * q == 1_000_000,
                q > 0,
        ;
    }
    Some(micro * power_of_ten(PLACES - kept))
}

/// Reads a plain decimal from the bytes of a text, in millionths. Digits
/// after the sixth decimal place are cut off. Bytes that are no plain
/// decimal give nothing.
pub fn parse_bytes(bytes: &[u8]) -> (res: Option<i64>)
    ensures
        res is Some <==> parsed(bytes@) is Some,
        res matches Some(v) ==> parsed(bytes@) == Some(v as int),
{
    let n = bytes.len();
    let signed = n > 0 && (bytes[0] == 43 || bytes[0] == 45);
    let negative = n > 0 && bytes[0] == 45;
    let start: usize = if signed {
        1
    } else {
        0
    };
    let (i, whole) = read_whole(bytes, start);
    let pointed = i < n && bytes[i] == 46;
    let frac_start: usize = if pointed {
        i + 1
    } else {
        i
    };
    let ghost body = bytes@.skip(start as int);
    let ghost rest = body.skip(i - start);
    proof {
        if pointed {
            assert(rest.skip(1) =~= bytes@.skip(frac_start as int));
        } else {
            assert(rest =~= bytes@.skip(frac_start as int));
        }
    }
    let micro = read_fraction(bytes, frac_start);
    match (whole, micro) {
        (Some(w), Some(m)) => {
            if i - start + (n - frac_start) == 0 {
                return None;
            }
            let magnitude: i64 = w * ONE + m;
            if negative {
                Some(-magnitude)
            } else {
                Some(magnitude)
            }
        },
        _ => None,
    }
}

/// The bytes of a text of ASCII characters, one byte for each character.
pub open spec fn ascii_bytes(text: Seq<char>) -> Seq<u8> {
    Seq::new(text.len(), |i: int| text[i] as u8)
}

/// Whether a character is an ASCII decimal digit.
pub open spec fn is_digit_char(c: char) -> bool {
    '0' <= c <= '9'
}

/// The number in millionths that a text writes, if it is a plain decimal.
/// A text with a character outside ASCII is none.
pub open spec fn parsed_text(text: Seq<char>) -> Option<int> {
    if is_ascii_chars(text) {
        parsed(ascii_bytes(text))
    } else {
        None
    }
}

/// A text without a single digit is no number: the empty text, a lone
/// sign, a word.
pub proof fn lemma_no_digit_no_number_text(text: Seq<char>)
    requires
        forall|i: int| 0 <= i < text.len() ==> !is_digit_char(#[trigger] text[i]),
    ensures
        parsed_text(text) is None,
{
    if is_ascii_chars(text) {
        lemma_no_digit_no_number(ascii_bytes(text));
    }
}

/// Reads a plain decimal from a text, in millionths: an optional sign,
/// digits, and optionally a point and more digits. Digits after the sixth
/// decimal place are cut off. Text that is no plain decimal gives nothing;
/// so does every text without a digit.
pub fn parse_decimal(text: &str) -> (res: Option<i64>)
    ensures
        res is Some <==> parsed_text(text@) is Some,
        res matches Some(v) ==> parsed_text(text@) == Some(v as int),
        (forall|i: int| 0 <= i < text@.len() ==> !is_digit_char(#[trigger] text@[i])) ==> res
            is None,
{
    proof {
        if forall|i: int| 0 <= i < text@.len() ==> !is_digit_char(#[trigger] text@[i]) {
            lemma_no_digit_no_number_text(text@);
        }
    }
    if !text.is_ascii() {
        return None;
    }
    proof {
        is_ascii_chars_encode_utf8(text@);
    }
    parse_bytes(text.as_bytes())
}

/// The character of one decimal digit.
pub open spec fn digit_char(d: int) -> char {
    (48 + d) as char
}

/// The digits that write a natural number, without leading zeros.
pub open spec fn digits_of(n: nat) -> Seq<char>
    decreases n,
{
    if n < 10 {
        seq![digit_char(n as int)]
    } else {
        digits_of(n / 10).push(digit_char((n % 10) as int))
    }
}

/// The last `width` digits of a natural number, with leading zeros.
pub open spec fn padded_digits(n: nat, width: nat) -> Seq<char>
    decreases width,
{
    if width == 0 {
        Seq::empty()
    } else {
        padded_digits(n / 10, (width - 1) as nat).push(digit_char((n % 10) as int))
    }
}

/// The text of a number in millionths, rounded to `places` decimal places,
/// halves away from zero: a minus sign unless the rounded number is zero or
/// more, the whole part, and with `places` above zero a point and exactly
/// `places` digits.
pub open spec fn fixed_text(v: int, places: nat) -> Seq<char> {
    let unit = pow10((PLACES - places) as nat);
    let magnitude = if v < 0 {
        -v
    } else {
        v
    };
    let rounded = round_div(magnitude, unit);
    let sign = if v < 0 && rounded > 0 {
        seq!['-']
    } else {
        Seq::empty()
    };
    let whole = digits_of((rounded / pow10(places)) as nat);
    if places == 0 {
        sign + whole
    } else {
        sign + whole + seq!['.'] + padded_digits((rounded % pow10(places)) as nat, places)
    }
}

/// The text of one decimal digit.
fn digit_text(d: u64) -> (res: &'static str)
    requires
        d < 10,
    ensures
        res@ == seq![digit_char(d as int)],
{
    proof {
        reveal_strlit("0");
        reveal_strlit("1");
        reveal_strlit("2");
        reveal_strlit("3");
        reveal_strlit("4");
        reveal_strlit("5");
        reveal_strlit("6");
        reveal_strlit("7");
        reveal_strlit("8");
        reveal_strlit("9");
    }
    if d == 0 {
        "0"
    } else if d == 1 {
        "1"
    } else if d == 2 {
        "2"
    } else if d == 3 {
        "3"
    } else if d == 4 {
        "4"
    } else if d == 5 {
        "5"
    } else if d == 6 {
        "6"
    } else if d == 7 {
        "7"
    } else if d == 8 {
        "8"
    } else {
        "9"
    }
}

/// Appends the digits of a natural number to a text.
pub fn push_number(text: &mut String, n: u64)
    ensures
        final(text)@ == old(text)@ + digits_of(n as nat),
    decreases n,
{
    if n >= 10 {
        push_number(text, n / 10);
    }
    text.append(digit_text(n % 10));
}

/// Appends the last `width` digits of a natural number to a text, with
/// leading zeros.
pub fn push_padded(text: &mut String, n: u64, width: usize)
    ensures
        final(text)@ == old(text)@ + padded_digits(n as nat, width as nat),
    decreases width,
{
    if width > 0 {
        push_padded(text, n / 10, width - 1);
        text.append(digit_text(n % 10));
    }
}

/// Appends a number in millionths to a text, rounded to `places` decimal
/// places.
pub fn push_fixed(text: &mut String, v: i64, places: usize)
    requires
        places <= PLACES,
        -FIXED_MAX <= v <= FIXED_MAX,
    ensures
        final(text)@ == old(text)@ + fixed_text(v as int, places as nat),
{
    proof {
        lemma_pow10_split(places as nat);
    }
    let unit: i64 = power_of_ten(PLACES - places);
    let magnitude: i64 = if v < 0 {
        -v
    } else {
        v
    };
    let rounded: i64 = div_round(magnitude, unit);
    let split: i64 = power_of_ten(places);
    if v < 0 && rounded > 0 {
        proof {
            reveal_strlit("-");
        }
        text.append("-");
    }
    push_number(text, (rounded / split) as u64);
    if places > 0 {
        proof {
            reveal_strlit(".");
        }
        text.append(".");
        push_padded(text, (rounded % split) as u64, places);
    }
}

/// A text without a single digit is no number: the empty text, a lone
/// sign, a word.
pub proof fn lemma_no_digit_no_number(s: Seq<u8>)
    requires
        forall|i: int| 0 <= i < s.len() ==> !is_digit(#[trigger] s[i]),
    ensures
        parsed(s) is None,
{
}

} // verus!
