//! Hue, saturation and value, and their conversion to and from RGB.

use vstd::prelude::*;
use crate::fixed::{
    clamp, clamped, larger, lemma_scaled_bound, lemma_scaled_inverse, max3, min3, scale, scaled,
    smaller, unit_triple, wrap, wrapped, ONE, SEXTANT, TURN,
};

verus! {

/// Saturation: chroma as a fraction of the largest channel, and zero for
/// black, where that fraction has no value.
pub open spec fn saturation_of(max: int, delta: int) -> int {
    if max == 0 {
        0
    } else {
        scaled(ONE as int, delta, max)
    }
}

/// Sixty degrees times `num / delta`, rounded to nearest, halves away from
/// zero.
pub open spec fn hue_offset(num: int, delta: int) -> int {
    if num >= 0 {
        scaled(SEXTANT as int, num, delta)
    } else {
        -scaled(SEXTANT as int, -num, delta)
    }
}

/// Hue in millionths of a degree: zero for greys, otherwise the offset from
/// the primary of the largest channel, red being tried first, then green.
pub open spec fn hue_of(r: int, g: int, b: int) -> int {
    let max = max3(r, g, b);
    let delta = max - min3(r, g, b);
    if delta == 0 {
        0
    } else if max == r {
        wrapped(hue_offset(g - b, delta), TURN as int)
    } else if max == g {
        2 * SEXTANT + hue_offset(b - r, delta)
    } else {
        4 * SEXTANT + hue_offset(r - g, delta)
    }
}

/// The HSV form of an RGB triple whose channels lie between 0 and `ONE`.
pub open spec fn hsv_of_rgb(r: int, g: int, b: int) -> (int, int, int) {
    let max = max3(r, g, b);
    let delta = max - min3(r, g, b);
    (hue_of(r, g, b), saturation_of(max, delta), max)
}

/// Chroma: the spread between the largest and smallest channel.
pub open spec fn chroma_of(s: int, v: int) -> int {
    scaled(v, s, ONE as int)
}

/// The middle channel's height above the smallest one: chroma scaled by how
/// far the hue stands from the nearest secondary colour.
pub open spec fn ramp_of(c: int, h: int) -> int {
    let f = h % (SEXTANT as int);
    if (h / (SEXTANT as int)) % 2 == 0 {
        scaled(c, f, SEXTANT as int)
    } else {
        scaled(c, SEXTANT - f, SEXTANT as int)
    }
}

/// The RGB form of an HSV triple with hue in `[0, TURN)` and saturation and
/// value between 0 and `ONE`.
pub open spec fn rgb_of_hsv(h: int, s: int, v: int) -> (int, int, int) {
    let c = chroma_of(s, v);
    let x = ramp_of(c, h);
    let m = v - c;
    let sector = h / (SEXTANT as int);
    if sector == 0 {
        (c + m, x + m, m)
    } else if sector == 1 {
        (x + m, c + m, m)
    } else if sector == 2 {
        (m, c + m, x + m)
    } else if sector == 3 {
        (m, x + m, c + m)
    } else if sector == 4 {
        (x + m, m, c + m)
    } else {
        (c + m, m, x + m)
    }
}

/// Whether three numbers are a hue in `[0, TURN)` and a saturation and a
/// value between 0 and `ONE`.
pub open spec fn hsv_in_range(t: (int, int, int)) -> bool {
    &&& 0 <= t.0 < TURN
    &&& 0 <= t.1 <= ONE
    &&& 0 <= t.2 <= ONE
}

/// A hue offset is at most sixty degrees either way, and has the sign of
/// the difference it is taken from.
pub proof fn lemma_hue_offset_bound(num: int, delta: int)
    requires
        0 < delta,
        -delta <= num <= delta,
    ensures
        -SEXTANT <= hue_offset(num, delta) <= SEXTANT,
        num >= 0 ==> hue_offset(num, delta) >= 0,
        num < 0 ==> hue_offset(num, delta) <= 0,
{
    if num >= 0 {
        lemma_scaled_bound(SEXTANT as int, num, delta);
    } else {
        lemma_scaled_bound(SEXTANT as int, -num, delta);
    }
}

/// The HSV form of a valid RGB triple is a valid HSV triple.
pub proof fn lemma_hsv_of_rgb_in_range(r: int, g: int, b: int)
    requires
        unit_triple((r, g, b)),
    ensures
        hsv_in_range(hsv_of_rgb(r, g, b)),
{
    let max = max3(r, g, b);
    let delta = max - min3(r, g, b);
    if max > 0 {
        lemma_scaled_bound(ONE as int, delta, max);
    }
    if delta > 0 {
        lemma_hue_offset_bound(g - b, delta);
        lemma_hue_offset_bound(b - r, delta);
        lemma_hue_offset_bound(r - g, delta);
    }
}

/// The RGB form of a valid HSV triple is a valid RGB triple: chroma is at
/// most the value, and the ramp at most the chroma.
pub proof fn lemma_rgb_of_hsv_in_range(h: int, s: int, v: int)
    requires
        hsv_in_range((h, s, v)),
    ensures
        unit_triple(rgb_of_hsv(h, s, v)),
        0 <= chroma_of(s, v) <= v,
        0 <= ramp_of(chroma_of(s, v), h) <= chroma_of(s, v),
{
    let c = chroma_of(s, v);
    lemma_scaled_bound(v, s, ONE as int);
    let f = h % (SEXTANT as int);
    lemma_scaled_bound(c, f, SEXTANT as int);
    lemma_scaled_bound(c, SEXTANT - f, SEXTANT as int);
}

/// What the conversion back needs of a rounded hue offset for a difference
/// `n` of two channels: it stays within a sextant, and the ramp built from
/// it is `n` again.
proof fn lemma_offset_recovers(n: int, delta: int)
    requires
        0 <= n <= delta,
        0 < delta <= ONE,
    ensures
        0 <= scaled(SEXTANT as int, n, delta) <= SEXTANT,
        scaled(delta, scaled(SEXTANT as int, n, delta), SEXTANT as int) == n,
{
    lemma_scaled_bound(SEXTANT as int, n, delta);
    lemma_scaled_inverse(n, delta, SEXTANT as int);
}

/// Converting a valid RGB triple to HSV and back gives the same triple
/// again, exactly.
pub proof fn lemma_rgb_hsv_round_trip(r: int, g: int, b: int)
    requires
        unit_triple((r, g, b)),
    ensures
        ({
            let t = hsv_of_rgb(r, g, b);
            rgb_of_hsv(t.0, t.1, t.2) == (r, g, b)
        }),
{
    let max = max3(r, g, b);
    let delta = max - min3(r, g, b);
    if delta > 0 {
        lemma_scaled_inverse(delta, max, ONE as int);
        if max == r {
            if g >= b {
                lemma_offset_recovers(g - b, delta);
            } else {
                lemma_offset_recovers(b - g, delta);
            }
        } else if max == g {
            if b >= r {
                lemma_offset_recovers(b - r, delta);
            } else {
                lemma_offset_recovers(r - b, delta);
            }
        } else {
            if r >= g {
                lemma_offset_recovers(r - g, delta);
            } else {
                lemma_offset_recovers(g - r, delta);
            }
        }
    }
}

/// A grey, black and white among them, has hue zero and saturation zero.
pub proof fn lemma_grey_has_no_saturation(v: int)
    requires
        0 <= v <= ONE,
    ensures
        hsv_of_rgb(v, v, v) == (0int, 0int, v),
{
}

/// The primaries and secondaries stand at the multiples of sixty degrees:
/// a colour whose two smaller channels are equal has the hue of its
/// primary, and one whose two larger channels are equal has the hue of the
/// secondary between them.
pub proof fn lemma_landmark_hues(r: int, g: int, b: int)
    requires
        unit_triple((r, g, b)),
    ensures
        r > g && g == b ==> hue_of(r, g, b) == 0,
        r == g && g > b ==> hue_of(r, g, b) == SEXTANT,
        g > r && r == b ==> hue_of(r, g, b) == 2 * SEXTANT,
        g == b && b > r ==> hue_of(r, g, b) == 3 * SEXTANT,
        b > r && r == g ==> hue_of(r, g, b) == 4 * SEXTANT,
        b == r && r > g ==> hue_of(r, g, b) == 5 * SEXTANT,
{
}

/// At full saturation the primaries and secondaries survive the way to RGB
/// and back: each multiple of sixty degrees comes back as itself, whatever
/// the value, unless that is zero.
pub proof fn lemma_landmark_hues_round_trip(sixth: int, v: int)
    requires
        0 <= sixth < 6,
        0 < v <= ONE,
    ensures
        ({
            let t = rgb_of_hsv(sixth * SEXTANT, ONE as int, v);
            hsv_of_rgb(t.0, t.1, t.2) == (sixth * SEXTANT, ONE as int, v)
        }),
{
}

/// Without saturation every hue gives the grey of the value.
pub proof fn lemma_unsaturated_is_grey(h: int, v: int)
    requires
        hsv_in_range((h, 0, v)),
    ensures
        rgb_of_hsv(h, 0, v) == (v, v, v),
{
}

/// Without value every hue and saturation give black, and black turned
/// back has saturation zero: where the value is zero the saturation is
/// defined, and is zero, whatever the hue was.
pub proof fn lemma_black_whatever_the_hue(h: int, s: int)
    requires
        hsv_in_range((h, s, 0)),
    ensures
        rgb_of_hsv(h, s, 0) == (0int, 0int, 0int),
        hsv_of_rgb(0, 0, 0) == (0int, 0int, 0int),
{
}

/// The triple that results from setting channel `index` of `t` to `value`:
/// a hue wraps round the circle, saturation and value are clamped, and an
/// index past the last channel changes nothing.
pub open spec fn hsv_edited(t: (int, int, int), index: int, value: int) -> (int, int, int) {
    if index == 0 {
        (wrapped(value, TURN as int), t.1, t.2)
    } else if index == 1 {
        (t.0, clamped(value, 0, ONE as int), t.2)
    } else if index == 2 {
        (t.0, t.1, clamped(value, 0, ONE as int))
    } else {
        t
    }
}

/// A colour as hue, saturation and value. Hue is held in `[0, TURN)`,
/// saturation and value between 0 and `ONE`.
#[derive(Clone, Copy, Debug)]
pub struct Hsv {
    h: i64,
    s: i64,
    v: i64,
}

impl View for Hsv {
    type V = (int, int, int);

    closed spec fn view(&self) -> (int, int, int) {
        (self.h as int, self.s as int, self.v as int)
    }
}

/// Sixty degrees times `num / delta`, rounded to nearest.
fn offset(num: i64, delta: i64) -> (res: i64)
    requires
        0 < delta <= ONE,
        -delta <= num <= delta,
    ensures
        res == hue_offset(num as int, delta as int),
        -SEXTANT <= res <= SEXTANT,
{
    proof {
        lemma_hue_offset_bound(num as int, delta as int);
    }
    if num >= 0 {
        scale(SEXTANT, num, delta)
    } else {
        -scale(SEXTANT, -num, delta)
    }
}

impl Hsv {
    /// Every value of this type holds a hue within one turn and a saturation
    /// and value between 0 and `ONE`.
    #[verifier::type_invariant]
    pub closed spec fn wf(self) -> bool {
        hsv_in_range(self@)
    }

    /// A well-formed value has a view in range.
    pub proof fn lemma_in_range(self)
        requires
            self.wf(),
        ensures
            hsv_in_range(self@),
    {
    }

    /// Builds a colour from a hue, which wraps round the circle, and a
    /// saturation and value, which are clamped.
    pub fn new(h: i64, s: i64, v: i64) -> (res: Hsv)
        ensures
            res.wf(),
            res@ == (
                wrapped(h as int, TURN as int),
                clamped(s as int, 0, ONE as int),
                clamped(v as int, 0, ONE as int),
            ),
    {
        Hsv { h: wrap(h, TURN), s: clamp(s, 0, ONE), v: clamp(v, 0, ONE) }
    }

    /// Converts an RGB triple, each channel clamped to between 0 and `ONE`
    /// first. Black has saturation zero and hue zero.
    pub fn from_rgb(rgb: [i64; 3]) -> (res: Hsv)
        ensures
            res.wf(),
            res@ == hsv_of_rgb(
                clamped(rgb[0] as int, 0, ONE as int),
                clamped(rgb[1] as int, 0, ONE as int),
                clamped(rgb[2] as int, 0, ONE as int),
            ),
            res@.2 == 0 ==> res@.1 == 0 && res@.0 == 0,
    {
        let r = clamp(rgb[0], 0, ONE);
        let g = clamp(rgb[1], 0, ONE);
        let b = clamp(rgb[2], 0, ONE);
        let max = larger(r, larger(g, b));
        let min = smaller(r, smaller(g, b));
        let delta = max - min;
        proof {
            lemma_hsv_of_rgb_in_range(r as int, g as int, b as int);
        }
        let s = if max == 0 {
            0
        } else {
            scale(ONE, delta, max)
        };
        let h = if delta == 0 {
            0
        } else if max == r {
            wrap(offset(g - b, delta), TURN)
        } else if max == g {
            2 * SEXTANT + offset(b - r, delta)
        } else {
            4 * SEXTANT + offset(r - g, delta)
        };
        Hsv { h, s, v: max }
    }

    /// Converts to an RGB triple, each channel between 0 and `ONE`.
    pub fn to_rgb(&self) -> (rgb: [i64; 3])
        ensures
            (rgb[0] as int, rgb[1] as int, rgb[2] as int) == rgb_of_hsv(self@.0, self@.1, self@.2),
            unit_triple((rgb[0] as int, rgb[1] as int, rgb[2] as int)),
    {
        proof {
            use_type_invariant(self);
            lemma_rgb_of_hsv_in_range(self.h as int, self.s as int, self.v as int);
        }
        let c = scale(self.v, self.s, ONE);
        let sector = self.h / SEXTANT;
        let f = self.h % SEXTANT;
        let x = if sector % 2 == 0 {
            scale(c, f, SEXTANT)
        } else {
            scale(c, SEXTANT - f, SEXTANT)
        };
        let m = self.v - c;
        if sector == 0 {
            [c + m, x + m, m]
        } else if sector == 1 {
            [x + m, c + m, m]
        } else if sector == 2 {
            [m, c + m, x + m]
        } else if sector == 3 {
            [m, x + m, c + m]
        } else if sector == 4 {
            [x + m, m, c + m]
        } else {
            [c + m, m, x + m]
        }
    }

    /// Hue in millionths of a degree, from 0 up to but not including `TURN`.
    pub fn hue(&self) -> (res: i64)
        ensures
            res == self@.0,
            0 <= res < TURN,
    {
        proof {
            use_type_invariant(self);
        }
        self.h
    }

    /// Saturation, between 0 and `ONE`.
    pub fn saturation(&self) -> (res: i64)
        ensures
            res == self@.1,
            0 <= res <= ONE,
    {
        proof {
            use_type_invariant(self);
        }
        self.s
    }

    /// Value, between 0 and `ONE`.
    pub fn value(&self) -> (res: i64)
        ensures
            res == self@.2,
            0 <= res <= ONE,
    {
        proof {
            use_type_invariant(self);
        }
        self.v
    }

    /// Sets one channel and leaves the others as they are. A hue wraps round
    /// the circle; saturation and value are clamped.
    pub fn change_value(&mut self, index: usize, value: i64)
        ensures
            final(self).wf(),
            final(self)@ == hsv_edited(old(self)@, index as int, value as int),
    {
        proof {
            use_type_invariant(&*self);
        }
        if index == 0 {
            self.h = wrap(value, TURN);
        } else if index == 1 {
            self.s = clamp(value, 0, ONE);
        } else if index == 2 {
            self.v = clamp(value, 0, ONE);
        }
    }
}

} // verus!
