//! Linear interpolation as a trait, so that scalars and compound values can
//! share the blending formula `a*(1-frac) + b*frac`.

use vstd::prelude::*;
use crate::fixed::{fx_lerp, fx_lerp_spec};

verus! {

pub trait Lerp: Sized {
    /// The exact value `lerp` returns.
    spec fn lerp_spec(self, other: Self, frac: Self) -> Self;

    /// Blend `self` toward `other` by the fraction `frac`.
    fn lerp(&self, other: &Self, frac: &Self) -> (r: Self)
        ensures
            r == self.lerp_spec(*other, *frac),
    ;
}

impl Lerp for i64 {
    open spec fn lerp_spec(self, other: i64, frac: i64) -> i64 {
        fx_lerp_spec(self as int, other as int, frac as int) as i64
    }

    fn lerp(&self, other: &i64, frac: &i64) -> (r: i64)
        ensures
            r == self.lerp_spec(*other, *frac),
    {
        fx_lerp(*self, *other, *frac)
    }
}

} // verus!
