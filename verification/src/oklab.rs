//! OKLab: perceptual lightness and two opponent axes, held as checked
//! numbers. The transform between OKLab and RGB takes cube roots and a
//! fractional power, which exact integer arithmetic cannot express, so this
//! module keeps the channels in range and leaves the transform to the
//! caller.

use vstd::prelude::*;
use crate::fixed::{clamp, clamped, ONE};

verus! {

/// The upper bound of the two opponent axes: 0.4.
pub const AXIS_MAX: i64 = 400_000;

/// The lower bound of the two opponent axes: -0.4.
pub const AXIS_MIN: i64 = -400_000;

/// Whether three numbers are a lightness between 0 and `ONE` and two axes
/// between `AXIS_MIN` and `AXIS_MAX`.
pub open spec fn oklab_in_range(t: (int, int, int)) -> bool {
    &&& 0 <= t.0 <= ONE
    &&& AXIS_MIN <= t.1 <= AXIS_MAX
    &&& AXIS_MIN <= t.2 <= AXIS_MAX
}

/// The triple that results from setting channel `index` of `t` to `value`,
/// clamped to that channel's range; an index past the last channel changes
/// nothing.
pub open spec fn oklab_edited(t: (int, int, int), index: int, value: int) -> (int, int, int) {
    if index == 0 {
        (clamped(value, 0, ONE as int), t.1, t.2)
    } else if index == 1 {
        (t.0, clamped(value, AXIS_MIN as int, AXIS_MAX as int), t.2)
    } else if index == 2 {
        (t.0, t.1, clamped(value, AXIS_MIN as int, AXIS_MAX as int))
    } else {
        t
    }
}

/// A colour as OKLab lightness, between 0 and `ONE`, and the axes a and b,
/// each between `AXIS_MIN` and `AXIS_MAX`.
#[derive(Clone, Copy, Debug)]
pub struct Oklab {
    l: i64,
    a: i64,
    b: i64,
}

impl View for Oklab {
    type V = (int, int, int);

    closed spec fn view(&self) -> (int, int, int) {
        (self.l as int, self.a as int, self.b as int)
    }
}

impl Oklab {
    /// Every value of this type holds its three channels in range.
    #[verifier::type_invariant]
    pub closed spec fn wf(self) -> bool {
        oklab_in_range(self@)
    }

    /// A well-formed value has a view in range.
    pub proof fn lemma_in_range(self)
        requires
            self.wf(),
        ensures
            oklab_in_range(self@),
    {
    }

    /// Builds a colour from three channels, each clamped to its range.
    pub fn new(l: i64, a: i64, b: i64) -> (res: Oklab)
        ensures
            res.wf(),
            res@ == (
                clamped(l as int, 0, ONE as int),
                clamped(a as int, AXIS_MIN as int, AXIS_MAX as int),
                clamped(b as int, AXIS_MIN as int, AXIS_MAX as int),
            ),
    {
        Oklab {
            l: clamp(l, 0, ONE),
            a: clamp(a, AXIS_MIN, AXIS_MAX),
            b: clamp(b, AXIS_MIN, AXIS_MAX),
        }
    }

    /// Lightness, between 0 and `ONE`.
    pub fn lightness(&self) -> (res: i64)
        ensures
            res == self@.0,
            0 <= res <= ONE,
    {
        proof {
            use_type_invariant(self);
        }
        self.l
    }

    /// The green-red axis, between `AXIS_MIN` and `AXIS_MAX`.
    pub fn a(&self) -> (res: i64)
        ensures
            res == self@.1,
            AXIS_MIN <= res <= AXIS_MAX,
    {
        proof {
            use_type_invariant(self);
        }
        self.a
    }

    /// The blue-yellow axis, between `AXIS_MIN` and `AXIS_MAX`.
    pub fn b(&self) -> (res: i64)
        ensures
            res == self@.2,
            AXIS_MIN <= res <= AXIS_MAX,
    {
        proof {
            use_type_invariant(self);
        }
        self.b
    }

    /// Sets one channel, clamped to its range, and leaves the others as they
    /// are.
    pub fn change_value(&mut self, index: usize, value: i64)
        ensures
            final(self).wf(),
            final(self)@ == oklab_edited(old(self)@, index as int, value as int),
    {
        proof {
            use_type_invariant(&*self);
        }
        if index == 0 {
            self.l = clamp(value, 0, ONE);
        } else if index == 1 {
            self.a = clamp(value, AXIS_MIN, AXIS_MAX);
        } else if index == 2 {
            self.b = clamp(value, AXIS_MIN, AXIS_MAX);
        }
    }
}

} // verus!
