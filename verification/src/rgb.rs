//! Red, green and blue: the pivot through which every other colour space is
//! reached, and its eight-bit form.

use vstd::prelude::*;
use crate::fixed::{
    clamp, clamped, larger, lemma_scaled_bound, lemma_scaled_inverse, max3, min3, scale, scaled,
    smaller, unit_triple, ONE,
};

verus! {

/// The largest value of an eight-bit channel.
pub const BYTE_MAX: i64 = 255;

/// The largest magnitude of a channel that `Rgb::normalized` tells from
/// larger ones: forty times `ONE`.
pub const OVERSHOOT_MAX: i64 = 40_000_000;

/// The smallest channel that `Rgb::normalized` tells from smaller ones.
pub const OVERSHOOT_MIN: i64 = -40_000_000;

/// The channel that an eight-bit value stands for: the value over 255, as a
/// fraction of `ONE`.
pub open spec fn channel_of_byte(byte: int) -> int {
    scaled(ONE as int, byte, BYTE_MAX as int)
}

/// The eight-bit value nearest to a channel between 0 and `ONE`.
pub open spec fn byte_of_channel(channel: int) -> int {
    scaled(BYTE_MAX as int, channel, ONE as int)
}

/// An eight-bit value turned into a channel and back is the same value.
pub proof fn lemma_byte_round_trip(byte: int)
    requires
        0 <= byte <= BYTE_MAX,
    ensures
        0 <= channel_of_byte(byte) <= ONE,
        byte_of_channel(channel_of_byte(byte)) == byte,
{
    lemma_scaled_bound(ONE as int, byte, BYTE_MAX as int);
    lemma_scaled_inverse(byte, BYTE_MAX as int, ONE as int);
}

/// A triple that may overshoot the range from 0 to `ONE`, fitted into it:
/// the span from the smallest channel, or zero if that is smaller, to the
/// largest channel, or `ONE` if that is larger, is mapped onto the range.
pub open spec fn normalized_rgb(r: int, g: int, b: int) -> (int, int, int) {
    let low = if min3(r, g, b) < 0 {
        min3(r, g, b)
    } else {
        0
    };
    let high = if max3(r, g, b) > ONE {
        max3(r, g, b)
    } else {
        ONE as int
    };
    (
        scaled(ONE as int, r - low, high - low),
        scaled(ONE as int, g - low, high - low),
        scaled(ONE as int, b - low, high - low),
    )
}

/// A triple that does not overshoot is fitted onto itself.
pub proof fn lemma_normalized_in_range(r: int, g: int, b: int)
    requires
        unit_triple((r, g, b)),
    ensures
        normalized_rgb(r, g, b) == (r, g, b),
{
}

/// The triple that results from setting channel `index` of `t` to `value`,
/// clamped; an index past the last channel changes nothing.
pub open spec fn rgb_edited(t: (int, int, int), index: int, value: int) -> (int, int, int) {
    let x = clamped(value, 0, ONE as int);
    if index == 0 {
        (x, t.1, t.2)
    } else if index == 1 {
        (t.0, x, t.2)
    } else if index == 2 {
        (t.0, t.1, x)
    } else {
        t
    }
}

/// A colour as red, green and blue, each between 0 and `ONE`.
#[derive(Clone, Copy, Debug)]
pub struct Rgb {
    r: i64,
    g: i64,
    b: i64,
}

impl View for Rgb {
    type V = (int, int, int);

    closed spec fn view(&self) -> (int, int, int) {
        (self.r as int, self.g as int, self.b as int)
    }
}

/// The channel that an eight-bit value stands for.
fn widen(byte: u8) -> (res: i64)
    ensures
        res == channel_of_byte(byte as int),
        0 <= res <= ONE,
{
    scale(ONE, byte as i64, BYTE_MAX)
}

/// The eight-bit value nearest to a channel.
fn narrow(channel: i64) -> (res: u8)
    requires
        0 <= channel <= ONE,
    ensures
        res == byte_of_channel(channel as int),
{
    scale(BYTE_MAX, channel, ONE) as u8
}

impl Rgb {
    /// Every value of this type holds three channels between 0 and `ONE`.
    #[verifier::type_invariant]
    pub closed spec fn wf(self) -> bool {
        unit_triple(self@)
    }

    /// A well-formed value has a view in range.
    pub proof fn lemma_in_range(self)
        requires
            self.wf(),
        ensures
            unit_triple(self@),
    {
    }

    /// Builds a colour from three channels, each clamped.
    pub fn new(r: i64, g: i64, b: i64) -> (res: Rgb)
        ensures
            res.wf(),
            res@ == (
                clamped(r as int, 0, ONE as int),
                clamped(g as int, 0, ONE as int),
                clamped(b as int, 0, ONE as int),
            ),
    {
        Rgb { r: clamp(r, 0, ONE), g: clamp(g, 0, ONE), b: clamp(b, 0, ONE) }
    }

    /// Takes an RGB triple as it is, but for clamping each channel.
    pub fn from_rgb(rgb: [i64; 3]) -> (res: Rgb)
        ensures
            res.wf(),
            res@ == (
                clamped(rgb[0] as int, 0, ONE as int),
                clamped(rgb[1] as int, 0, ONE as int),
                clamped(rgb[2] as int, 0, ONE as int),
            ),
    {
        Rgb::new(rgb[0], rgb[1], rgb[2])
    }

    /// The three channels, each between 0 and `ONE`.
    pub fn to_rgb(&self) -> (rgb: [i64; 3])
        ensures
            (rgb[0] as int, rgb[1] as int, rgb[2] as int) == self@,
            unit_triple((rgb[0] as int, rgb[1] as int, rgb[2] as int)),
    {
        proof {
            use_type_invariant(self);
        }
        [self.r, self.g, self.b]
    }

    /// Fits a triple that may overshoot the range from 0 to `ONE` into it,
    /// keeping the proportions of its channels. A channel beyond
    /// `OVERSHOOT_MIN` or `OVERSHOOT_MAX` counts as that bound.
    pub fn normalized(raw: [i64; 3]) -> (res: Rgb)
        ensures
            res.wf(),
            res@ == normalized_rgb(
                clamped(raw[0] as int, OVERSHOOT_MIN as int, OVERSHOOT_MAX as int),
                clamped(raw[1] as int, OVERSHOOT_MIN as int, OVERSHOOT_MAX as int),
                clamped(raw[2] as int, OVERSHOOT_MIN as int, OVERSHOOT_MAX as int),
            ),
    {
        let r = clamp(raw[0], OVERSHOOT_MIN, OVERSHOOT_MAX);
        let g = clamp(raw[1], OVERSHOOT_MIN, OVERSHOOT_MAX);
        let b = clamp(raw[2], OVERSHOOT_MIN, OVERSHOOT_MAX);
        let low = smaller(smaller(r, smaller(g, b)), 0);
        let high = larger(larger(r, larger(g, b)), ONE);
        let span = high - low;
        Rgb {
            r: scale(ONE, r - low, span),
            g: scale(ONE, g - low, span),
            b: scale(ONE, b - low, span),
        }
    }

    /// The colour that three eight-bit values stand for.
    pub fn from_bytes(bytes: [u8; 3]) -> (res: Rgb)
        ensures
            res.wf(),
            res@ == (
                channel_of_byte(bytes[0] as int),
                channel_of_byte(bytes[1] as int),
                channel_of_byte(bytes[2] as int),
            ),
    {
        Rgb { r: widen(bytes[0]), g: widen(bytes[1]), b: widen(bytes[2]) }
    }

    /// The nearest eight-bit value of each channel.
    pub fn to_bytes(&self) -> (bytes: [u8; 3])
        ensures
            bytes[0] == byte_of_channel(self@.0),
            bytes[1] == byte_of_channel(self@.1),
            bytes[2] == byte_of_channel(self@.2),
    {
        proof {
            use_type_invariant(self);
        }
        [narrow(self.r), narrow(self.g), narrow(self.b)]
    }

    /// Red, between 0 and `ONE`.
    pub fn red(&self) -> (res: i64)
        ensures
            res == self@.0,
            0 <= res <= ONE,
    {
        proof {
            use_type_invariant(self);
        }
        self.r
    }

    /// Green, between 0 and `ONE`.
    pub fn green(&self) -> (res: i64)
        ensures
            res == self@.1,
            0 <= res <= ONE,
    {
        proof {
            use_type_invariant(self);
        }
        self.g
    }

    /// Blue, between 0 and `ONE`.
    pub fn blue(&self) -> (res: i64)
        ensures
            res == self@.2,
            0 <= res <= ONE,
    {
        proof {
            use_type_invariant(self);
        }
        self.b
    }

    /// Sets one channel, clamped, and leaves the others as they are.
    pub fn change_value(&mut self, index: usize, value: i64)
        ensures
            final(self).wf(),
            final(self)@ == rgb_edited(old(self)@, index as int, value as int),
    {
        proof {
            use_type_invariant(&*self);
        }
        let x = clamp(value, 0, ONE);
        if index == 0 {
            self.r = x;
        } else if index == 1 {
            self.g = x;
        } else if index == 2 {
            self.b = x;
        }
    }
}

} // verus!
