//! Cyan, magenta, yellow and key, and their conversion to and from RGB.

use vstd::prelude::*;
use crate::fixed::{
    clamp, clamped, larger, lemma_scaled_bound, lemma_scaled_complement_inverse, max3, scale,
    scaled, unit_triple, ONE,
};

verus! {

/// One ink: the share of the largest channel that `channel` falls short of
/// it, as a fraction of `ONE`.
pub open spec fn ink_of(channel: int, max: int) -> int {
    scaled(ONE as int, max - channel, max)
}

/// The CMYK form of an RGB triple whose channels lie between 0 and `ONE`.
/// Key is what the largest channel lacks to full; black, where the inks
/// have no value, is key alone.
pub open spec fn cmyk_of_rgb(r: int, g: int, b: int) -> (int, int, int, int) {
    let max = max3(r, g, b);
    if max == 0 {
        (0, 0, 0, ONE as int)
    } else {
        (ink_of(r, max), ink_of(g, max), ink_of(b, max), ONE - max)
    }
}

/// One RGB channel: what the ink leaves, of what the key leaves.
pub open spec fn light_of(ink: int, key: int) -> int {
    scaled(ONE - ink, ONE - key, ONE as int)
}

/// The RGB form of a CMYK quadruple whose channels lie between 0 and `ONE`.
pub open spec fn rgb_of_cmyk(c: int, m: int, y: int, k: int) -> (int, int, int) {
    (light_of(c, k), light_of(m, k), light_of(y, k))
}

/// Whether four numbers all lie between 0 and `ONE`.
pub open spec fn unit_quad(q: (int, int, int, int)) -> bool {
    &&& 0 <= q.0 <= ONE
    &&& 0 <= q.1 <= ONE
    &&& 0 <= q.2 <= ONE
    &&& 0 <= q.3 <= ONE
}

/// The CMYK form of a valid RGB triple is a valid CMYK quadruple.
pub proof fn lemma_cmyk_of_rgb_in_range(r: int, g: int, b: int)
    requires
        unit_triple((r, g, b)),
    ensures
        unit_quad(cmyk_of_rgb(r, g, b)),
{
    let max = max3(r, g, b);
    if max > 0 {
        lemma_scaled_bound(ONE as int, max - r, max);
        lemma_scaled_bound(ONE as int, max - g, max);
        lemma_scaled_bound(ONE as int, max - b, max);
    }
}

/// The RGB form of a valid CMYK quadruple is a valid RGB triple.
pub proof fn lemma_rgb_of_cmyk_in_range(c: int, m: int, y: int, k: int)
    requires
        unit_quad((c, m, y, k)),
    ensures
        unit_triple(rgb_of_cmyk(c, m, y, k)),
{
    lemma_scaled_bound(ONE - c, ONE - k, ONE as int);
    lemma_scaled_bound(ONE - m, ONE - k, ONE as int);
    lemma_scaled_bound(ONE - y, ONE - k, ONE as int);
}

/// Converting a valid RGB triple to CMYK and back gives the same triple
/// again, exactly.
pub proof fn lemma_rgb_cmyk_round_trip(r: int, g: int, b: int)
    requires
        unit_triple((r, g, b)),
    ensures
        ({
            let q = cmyk_of_rgb(r, g, b);
            rgb_of_cmyk(q.0, q.1, q.2, q.3) == (r, g, b)
        }),
{
    let max = max3(r, g, b);
    if max > 0 {
        lemma_scaled_complement_inverse(r, max, ONE as int);
        lemma_scaled_complement_inverse(g, max, ONE as int);
        lemma_scaled_complement_inverse(b, max, ONE as int);
    }
}

/// Black is key alone: no cyan, no magenta, no yellow.
pub proof fn lemma_black_is_key_alone()
    ensures
        cmyk_of_rgb(0, 0, 0) == (0int, 0int, 0int, ONE as int),
{
}

/// The quadruple that results from setting channel `index` of `q` to
/// `value`, clamped; an index past the last channel changes nothing.
pub open spec fn cmyk_edited(q: (int, int, int, int), index: int, value: int) -> (
    int,
    int,
    int,
    int,
) {
    let x = clamped(value, 0, ONE as int);
    if index == 0 {
        (x, q.1, q.2, q.3)
    } else if index == 1 {
        (q.0, x, q.2, q.3)
    } else if index == 2 {
        (q.0, q.1, x, q.3)
    } else if index == 3 {
        (q.0, q.1, q.2, x)
    } else {
        q
    }
}

/// A colour as cyan, magenta, yellow and key, each between 0 and `ONE`.
#[derive(Clone, Copy, Debug)]
pub struct Cmyk {
    c: i64,
    m: i64,
    y: i64,
    k: i64,
}

impl View for Cmyk {
    type V = (int, int, int, int);

    closed spec fn view(&self) -> (int, int, int, int) {
        (self.c as int, self.m as int, self.y as int, self.k as int)
    }
}

/// The share of `max` that `channel` falls short of it.
fn ink(channel: i64, max: i64) -> (res: i64)
    requires
        0 <= channel <= max,
        0 < max <= ONE,
    ensures
        res == ink_of(channel as int, max as int),
        0 <= res <= ONE,
{
    scale(ONE, max - channel, max)
}

/// What the ink leaves, of what the key leaves.
fn light(ink: i64, key: i64) -> (res: i64)
    requires
        0 <= ink <= ONE,
        0 <= key <= ONE,
    ensures
        res == light_of(ink as int, key as int),
        0 <= res <= ONE,
{
    scale(ONE - ink, ONE - key, ONE)
}

impl Cmyk {
    /// Every value of this type holds four channels between 0 and `ONE`.
    #[verifier::type_invariant]
    pub closed spec fn wf(self) -> bool {
        unit_quad(self@)
    }

    /// A well-formed value has a view in range.
    pub proof fn lemma_in_range(self)
        requires
            self.wf(),
        ensures
            unit_quad(self@),
    {
    }

    /// Builds a colour from four channels, each clamped.
    pub fn new(c: i64, m: i64, y: i64, k: i64) -> (res: Cmyk)
        ensures
            res.wf(),
            res@ == (
                clamped(c as int, 0, ONE as int),
                clamped(m as int, 0, ONE as int),
                clamped(y as int, 0, ONE as int),
                clamped(k as int, 0, ONE as int),
            ),
    {
        Cmyk { c: clamp(c, 0, ONE), m: clamp(m, 0, ONE), y: clamp(y, 0, ONE), k: clamp(k, 0, ONE) }
    }

    /// Converts an RGB triple, each channel clamped to between 0 and `ONE`
    /// first. Black comes out as key alone.
    pub fn from_rgb(rgb: [i64; 3]) -> (res: Cmyk)
        ensures
            res.wf(),
            res@ == cmyk_of_rgb(
                clamped(rgb[0] as int, 0, ONE as int),
                clamped(rgb[1] as int, 0, ONE as int),
                clamped(rgb[2] as int, 0, ONE as int),
            ),
            res@.3 == ONE ==> res@.0 == 0 && res@.1 == 0 && res@.2 == 0,
    {
        let r = clamp(rgb[0], 0, ONE);
        let g = clamp(rgb[1], 0, ONE);
        let b = clamp(rgb[2], 0, ONE);
        let max = larger(r, larger(g, b));
        if max == 0 {
            Cmyk { c: 0, m: 0, y: 0, k: ONE }
        } else {
            Cmyk { c: ink(r, max), m: ink(g, max), y: ink(b, max), k: ONE - max }
        }
    }

    /// Converts to an RGB triple, each channel between 0 and `ONE`.
    pub fn to_rgb(&self) -> (rgb: [i64; 3])
        ensures
            (rgb[0] as int, rgb[1] as int, rgb[2] as int) == rgb_of_cmyk(
                self@.0,
                self@.1,
                self@.2,
                self@.3,
            ),
            unit_triple((rgb[0] as int, rgb[1] as int, rgb[2] as int)),
    {
        proof {
            use_type_invariant(self);
        }
        [light(self.c, self.k), light(self.m, self.k), light(self.y, self.k)]
    }

    /// Cyan, between 0 and `ONE`.
    pub fn cyan(&self) -> (res: i64)
        ensures
            res == self@.0,
            0 <= res <= ONE,
    {
        proof {
            use_type_invariant(self);
        }
        self.c
    }

    /// Magenta, between 0 and `ONE`.
    pub fn magenta(&self) -> (res: i64)
        ensures
            res == self@.1,
            0 <= res <= ONE,
    {
        proof {
            use_type_invariant(self);
        }
        self.m
    }

    /// Yellow, between 0 and `ONE`.
    pub fn yellow(&self) -> (res: i64)
        ensures
            res == self@.2,
            0 <= res <= ONE,
    {
        proof {
            use_type_invariant(self);
        }
        self.y
    }

    /// Key, between 0 and `ONE`.
    pub fn key(&self) -> (res: i64)
        ensures
            res == self@.3,
            0 <= res <= ONE,
    {
        proof {
            use_type_invariant(self);
        }
        self.k
    }

    /// Sets one channel, clamped, and leaves the others as they are.
    pub fn change_value(&mut self, index: usize, value: i64)
        ensures
            final(self).wf(),
            final(self)@ == cmyk_edited(old(self)@, index as int, value as int),
    {
        proof {
            use_type_invariant(&*self);
        }
        let x = clamp(value, 0, ONE);
        if index == 0 {
            self.c = x;
        } else if index == 1 {
            self.m = x;
        } else if index == 2 {
            self.y = x;
        } else if index == 3 {
            self.k = x;
        }
    }
}

} // verus!
