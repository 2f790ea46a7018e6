//! OKLCH: OKLab in polar form, held as checked numbers. The polar transform
//! takes a square root and trigonometric functions, which exact integer
//! arithmetic cannot express, so this module keeps the channels in range and
//! leaves the transform to the caller.

use vstd::prelude::*;
use crate::fixed::{clamp, clamped, wrap, wrapped, ONE, TURN};

verus! {

/// The largest chroma: 0.4.
pub const CHROMA_MAX: i64 = 400_000;

/// Whether three numbers are a lightness between 0 and `ONE`, a chroma
/// between 0 and `CHROMA_MAX` and a hue in `[0, TURN)`.
pub open spec fn oklch_in_range(t: (int, int, int)) -> bool {
    &&& 0 <= t.0 <= ONE
    &&& 0 <= t.1 <= CHROMA_MAX
    &&& 0 <= t.2 < TURN
}

/// The triple that results from setting channel `index` of `t` to `value`:
/// lightness and chroma are clamped, a hue wraps round the circle, and an
/// index past the last channel changes nothing.
pub open spec fn oklch_edited(t: (int, int, int), index: int, value: int) -> (int, int, int) {
    if index == 0 {
        (clamped(value, 0, ONE as int), t.1, t.2)
    } else if index == 1 {
        (t.0, clamped(value, 0, CHROMA_MAX as int), t.2)
    } else if index == 2 {
        (t.0, t.1, wrapped(value, TURN as int))
    } else {
        t
    }
}

/// A colour as OKLCH lightness, between 0 and `ONE`, chroma, between 0 and
/// `CHROMA_MAX`, and hue, in `[0, TURN)`.
#[derive(Clone, Copy, Debug)]
pub struct Oklch {
    l: i64,
    c: i64,
    h: i64,
}

impl View for Oklch {
    type V = (int, int, int);

    closed spec fn view(&self) -> (int, int, int) {
        (self.l as int, self.c as int, self.h as int)
    }
}

impl Oklch {
    /// Every value of this type holds its three channels in range.
    #[verifier::type_invariant]
    pub closed spec fn wf(self) -> bool {
        oklch_in_range(self@)
    }

    /// A well-formed value has a view in range.
    pub proof fn lemma_in_range(self)
        requires
            self.wf(),
        ensures
            oklch_in_range(self@),
    {
    }

    /// Builds a colour from a lightness and a chroma, which are clamped, and
    /// a hue, which wraps round the circle.
    pub fn new(l: i64, c: i64, h: i64) -> (res: Oklch)
        ensures
            res.wf(),
            res@ == (
                clamped(l as int, 0, ONE as int),
                clamped(c as int, 0, CHROMA_MAX as int),
                wrapped(h as int, TURN as int),
            ),
    {
        Oklch { l: clamp(l, 0, ONE), c: clamp(c, 0, CHROMA_MAX), h: wrap(h, TURN) }
    }

    /// Lightness, between 0 and `ONE`.
    pub fn lightness(&self) -> (res: i64)
        ensures
            res == self@.0,
            0 <= res <= ONE,
    {
        proof {
            use_type_invariant(self);
        }
        self.l
    }

    /// Chroma, between 0 and `CHROMA_MAX`.
    pub fn chroma(&self) -> (res: i64)
        ensures
            res == self@.1,
            0 <= res <= CHROMA_MAX,
    {
        proof {
            use_type_invariant(self);
        }
        self.c
    }

    /// Hue in millionths of a degree, from 0 up to but not including `TURN`.
    pub fn hue(&self) -> (res: i64)
        ensures
            res == self@.2,
            0 <= res < TURN,
    {
        proof {
            use_type_invariant(self);
        }
        self.h
    }

    /// Sets one channel and leaves the others as they are. Lightness and
    /// chroma are clamped; a hue wraps round the circle.
    pub fn change_value(&mut self, index: usize, value: i64)
        ensures
            final(self).wf(),
            final(self)@ == oklch_edited(old(self)@, index as int, value as int),
    {
        proof {
            use_type_invariant(&*self);
        }
        if index == 0 {
            self.l = clamp(value, 0, ONE);
        } else if index == 1 {
            self.c = clamp(value, 0, CHROMA_MAX);
        } else if index == 2 {
            self.h = wrap(value, TURN);
        }
    }
}

} // verus!
