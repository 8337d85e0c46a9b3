//! Planar vectors as fixed-point complex numbers.
//!
//! A point or velocity is a pair `(re, im)` of fixed-point scalars, `re`
//! running right and `im` running down the screen. Complex multiplication
//! rotates and scales, which is how bullet directions are turned.

use vstd::prelude::*;
use crate::fx::{fx_add, fx_add_spec, fx_mul, fx_mul_spec, fx_sub, fx_sub_spec, in_fx};

verus! {

/// A planar vector / complex number in fixed-point units.
#[derive(Clone, Copy, Debug, PartialEq, Eq, Structural)]
pub struct Cpx {
    pub re: i64,
    pub im: i64,
}

/// Both components are in the fixed-point range.
pub open spec fn cpx_in_fx(v: Cpx) -> bool {
    in_fx(v.re as int) && in_fx(v.im as int)
}

/// Spec-level componentwise sum.
pub open spec fn cadd_spec(a: Cpx, b: Cpx) -> Cpx {
    Cpx {
        re: fx_add_spec(a.re as int, b.re as int) as i64,
        im: fx_add_spec(a.im as int, b.im as int) as i64,
    }
}

/// Spec-level componentwise difference.
pub open spec fn csub_spec(a: Cpx, b: Cpx) -> Cpx {
    Cpx {
        re: fx_sub_spec(a.re as int, b.re as int) as i64,
        im: fx_sub_spec(a.im as int, b.im as int) as i64,
    }
}

/// Spec-level scaling by a fixed-point scalar.
pub open spec fn cscale_spec(a: Cpx, s: int) -> Cpx {
    Cpx {
        re: fx_mul_spec(a.re as int, s) as i64,
        im: fx_mul_spec(a.im as int, s) as i64,
    }
}

/// Spec-level complex product.
pub open spec fn cmul_spec(a: Cpx, b: Cpx) -> Cpx {
    Cpx {
        re: fx_sub_spec(
            fx_mul_spec(a.re as int, b.re as int),
            fx_mul_spec(a.im as int, b.im as int),
        ) as i64,
        im: fx_add_spec(
            fx_mul_spec(a.re as int, b.im as int),
            fx_mul_spec(a.im as int, b.re as int),
        ) as i64,
    }
}

impl Cpx {
    /// Build a vector from its two components.
    pub fn new(re: i64, im: i64) -> (r: Cpx)
        ensures
            r.re == re,
            r.im == im,
    {
        Cpx { re, im }
    }

    /// The zero vector.
    pub fn zero() -> (r: Cpx)
        ensures
            r.re == 0,
            r.im == 0,
    {
        Cpx { re: 0, im: 0 }
    }

    /// Whether this is exactly the zero vector.
    pub fn is_zero(&self) -> (r: bool)
        ensures
            r == (self.re == 0 && self.im == 0),
    {
        self.re == 0 && self.im == 0
    }

    /// Componentwise clamped sum.
    pub fn plus(&self, o: &Cpx) -> (r: Cpx)
        requires
            cpx_in_fx(*self),
            cpx_in_fx(*o),
        ensures
            r.re == fx_add_spec(self.re as int, o.re as int),
            r.im == fx_add_spec(self.im as int, o.im as int),
            r == cadd_spec(*self, *o),
            cpx_in_fx(r),
    {
        Cpx { re: fx_add(self.re, o.re), im: fx_add(self.im, o.im) }
    }

    /// Componentwise clamped difference.
    pub fn minus(&self, o: &Cpx) -> (r: Cpx)
        requires
            cpx_in_fx(*self),
            cpx_in_fx(*o),
        ensures
            r.re == fx_sub_spec(self.re as int, o.re as int),
            r.im == fx_sub_spec(self.im as int, o.im as int),
            r == csub_spec(*self, *o),
            cpx_in_fx(r),
    {
        Cpx { re: fx_sub(self.re, o.re), im: fx_sub(self.im, o.im) }
    }

    /// Scale both components by a fixed-point scalar.
    pub fn scale(&self, s: i64) -> (r: Cpx)
        requires
            cpx_in_fx(*self),
            in_fx(s as int),
        ensures
            r.re == fx_mul_spec(self.re as int, s as int),
            r.im == fx_mul_spec(self.im as int, s as int),
            r == cscale_spec(*self, s as int),
            cpx_in_fx(r),
    {
        Cpx { re: fx_mul(self.re, s), im: fx_mul(self.im, s) }
    }

    /// Complex product: rotates `self` by the argument of `o` and scales by
    /// its magnitude.
    pub fn times(&self, o: &Cpx) -> (r: Cpx)
        requires
            cpx_in_fx(*self),
            cpx_in_fx(*o),
        ensures
            r.re == fx_sub_spec(
                fx_mul_spec(self.re as int, o.re as int),
                fx_mul_spec(self.im as int, o.im as int),
            ),
            r.im == fx_add_spec(
                fx_mul_spec(self.re as int, o.im as int),
                fx_mul_spec(self.im as int, o.re as int),
            ),
            r == cmul_spec(*self, *o),
            cpx_in_fx(r),
    {
        Cpx {
            re: fx_sub(fx_mul(self.re, o.re), fx_mul(self.im, o.im)),
            im: fx_add(fx_mul(self.re, o.im), fx_mul(self.im, o.re)),
        }
    }
}

} // verus!
