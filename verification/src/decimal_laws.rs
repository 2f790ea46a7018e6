//! What is written as a fixed decimal reads back as the number that was
//! written, rounded to the places it was written with.

use vstd::prelude::*;
use vstd::arithmetic::div_mod::{
    lemma_breakdown, lemma_fundamental_div_mod, lemma_mod_bound, lemma_small_mod,
};
use vstd::utf8::is_ascii_chars;
use crate::decimal::{
    all_digits, ascii_bytes, digit_char, digits_of, digits_value, fixed_text,
    is_digit, lemma_digit_prefix, lemma_pow10_split, padded_digits, parsed,
    parsed_text, pow10, sign_len, FIXED_MAX, PLACES, WHOLE_MAX,
};
use crate::fixed::{lemma_round_div_bounds, round_div, ONE};

verus! {

/// A number in millionths rounded to `places` decimal places, halves away
/// from zero.
pub open spec fn rounded_to(v: int, places: nat) -> int {
    let unit = pow10((PLACES - places) as nat);
    if v < 0 {
        -(round_div(-v, unit) * unit)
    } else {
        round_div(v, unit) * unit
    }
}

/// Whether every character is an ASCII decimal digit.
pub open spec fn all_digit_chars(s: Seq<char>) -> bool {
    forall|i: int| 0 <= i < s.len() ==> 48 <= (#[trigger] s[i]) as int <= 57
}

/// The number that a run of digit characters writes.
pub open spec fn chars_value(s: Seq<char>) -> int {
    digits_value(ascii_bytes(s))
}

/// Appending one digit multiplies the value by ten and adds the digit.
proof fn lemma_chars_value_push(s: Seq<char>, d: int)
    requires
        0 <= d <= 9,
    ensures
        chars_value(s.push(digit_char(d))) == 10 * chars_value(s) + d,
{
    let t = ascii_bytes(s.push(digit_char(d)));
    assert(t.drop_last() =~= ascii_bytes(s));
}

/// The digits of a natural number are digits, at least one, and write the
/// number.
proof fn lemma_digits_of(n: nat)
    ensures
        digits_of(n).len() >= 1,
        all_digit_chars(digits_of(n)),
        chars_value(digits_of(n)) == n,
    decreases n,
{
    if n < 10 {
        lemma_chars_value_push(Seq::empty(), n as int);
    } else {
        lemma_digits_of(n / 10);
        lemma_chars_value_push(digits_of(n / 10), (n % 10) as int);
    }
}

/// The padded digits of a natural number are digits, as many as the width,
/// and write the number's remainder by ten to the power of the width.
proof fn lemma_padded_digits(n: nat, width: nat)
    ensures
        padded_digits(n, width).len() == width,
        all_digit_chars(padded_digits(n, width)),
        chars_value(padded_digits(n, width)) == n % (pow10(width) as nat),
        pow10(width) > 0,
    decreases width,
{
    if width > 0 {
        let w = (width - 1) as nat;
        lemma_padded_digits(n / 10, w);
        lemma_chars_value_push(padded_digits(n / 10, w), (n % 10) as int);
        lemma_breakdown(n as int, 10, pow10(w));
    }
}

/// The bytes of a run of digit characters are digits.
proof fn lemma_digit_chars_are_digits(s: Seq<char>)
    requires
        all_digit_chars(s),
    ensures
        all_digits(ascii_bytes(s)),
        is_ascii_chars(s),
{
}

/// A run of digits, then perhaps a point and a run of at most six digits,
/// reads as the whole part and the fraction that the digits write.
proof fn lemma_unsigned_reads(whole: Seq<char>, frac: Seq<char>, pointed: bool)
    requires
        whole.len() >= 1,
        all_digit_chars(whole),
        all_digit_chars(frac),
        frac.len() <= PLACES,
        !pointed ==> frac.len() == 0,
        chars_value(whole) <= WHOLE_MAX,
    ensures
        ({
            let text = if pointed {
                whole + seq!['.'] + frac
            } else {
                whole
            };
            &&& is_ascii_chars(text)
            &&& sign_len(ascii_bytes(text)) == 0
            &&& text[0] != '-'
            &&& parsed(ascii_bytes(text)) == Some(
                chars_value(whole) * ONE + chars_value(frac) * pow10(
                    (PLACES - frac.len()) as nat,
                ),
            )
        }),
{
    let text = if pointed {
        whole + seq!['.'] + frac
    } else {
        whole
    };
    let bytes = ascii_bytes(text);
    let k = whole.len() as int;
    lemma_digit_chars_are_digits(whole);
    lemma_digit_chars_are_digits(frac);
    let body = bytes.skip(0);
    assert(body.take(k) =~= ascii_bytes(whole));
    lemma_digit_prefix(body, k);
    if pointed {
        assert(body.skip(k).skip(1) =~= ascii_bytes(frac));
    }
    assert(ascii_bytes(frac).take(frac.len() as int) =~= ascii_bytes(frac));
}

/// A minus sign before such a text negates what it reads as.
proof fn lemma_negated_reads(text: Seq<char>, value: int)
    requires
        text.len() >= 1,
        is_ascii_chars(text),
        sign_len(ascii_bytes(text)) == 0,
        parsed(ascii_bytes(text)) == Some(value),
    ensures
        is_ascii_chars(seq!['-'] + text),
        parsed(ascii_bytes(seq!['-'] + text)) == Some(-value),
{
    let bytes = ascii_bytes(seq!['-'] + text);
    assert(bytes.skip(1) =~= ascii_bytes(text));
    assert(ascii_bytes(text).skip(0) =~= ascii_bytes(text));
}

/// What `fixed_text` writes, `parsed_text` reads: as the number that was
/// written, rounded to the places it was written with.
pub proof fn lemma_fixed_text_reads_back(v: int, places: nat)
    requires
        places <= PLACES,
        -FIXED_MAX <= v <= FIXED_MAX,
    ensures
        parsed_text(fixed_text(v, places)) == Some(rounded_to(v, places)),
{
    let unit = pow10((PLACES - places) as nat);
    let split = pow10(places);
    lemma_pow10_split(places);
    let magnitude = if v < 0 {
        -v
    } else {
        v
    };
    let rounded = round_div(magnitude, unit);
    lemma_round_div_bounds(magnitude, unit);
    assert(0 <= rounded <= magnitude + 1) by (nonlinear_arith)
        requires
            unit > 0,
            magnitude >= 0,
            2 * unit * rounded <= 2 * magnitude + unit < 2 * unit * rounded + 2 * unit,
    ;
    let high = rounded / split;
    let low = rounded % split;
    lemma_fundamental_div_mod(rounded, split);
    lemma_mod_bound(rounded, split);
    assert(0 <= high <= rounded) by (nonlinear_arith)
        requires
            rounded == split * high + low,
            0 <= low < split,
            0 <= rounded,
            split > 0,
    ;
    let whole = digits_of(high as nat);
    let frac = if places == 0 {
        Seq::<char>::empty()
    } else {
        padded_digits(low as nat, places)
    };
    lemma_digits_of(high as nat);
    lemma_padded_digits(low as nat, places);
    if places > 0 {
        lemma_small_mod(low as nat, split as nat);
    }
    assert(high * ONE + low * unit == rounded * unit) by (nonlinear_arith)
        requires
            rounded == split * high + low,
            split * unit == 1_000_000,
            ONE == 1_000_000,
    ;
    assert(high <= WHOLE_MAX) by (nonlinear_arith)
        requires
            high * ONE + low * unit == rounded * unit,
            0 <= low,
            unit > 0,
            2 * unit * rounded <= 2 * magnitude + unit,
            magnitude <= FIXED_MAX,
            unit <= 1_000_000,
            ONE == 1_000_000,
            FIXED_MAX == 1_000_000_000_000_000,
            WHOLE_MAX == 1_000_000_000_000,
    ;
    lemma_unsigned_reads(whole, frac, places > 0);
    let unsigned = if places > 0 {
        whole + seq!['.'] + frac
    } else {
        whole
    };
    if v < 0 && rounded > 0 {
        lemma_negated_reads(unsigned, rounded * unit);
        assert(fixed_text(v, places) =~= seq!['-'] + unsigned);
    } else if v < 0 {
        assert(rounded * unit == 0) by (nonlinear_arith)
            requires
                rounded == 0,
        ;
    }
}

} // verus!
