//! Fixed-point scalars.
//!
//! A scalar is an `i64` holding a real quantity times one thousand: one pixel,
//! one second or one degree is `FX_ONE` units. Every arithmetic result is
//! clamped into `[-FX_LIM, FX_LIM]`, so the operations are total and stored
//! values never overflow in later products.

use vstd::prelude::*;

verus! {

/// Number of fixed-point units in one whole unit (pixel, second, degree).
pub const FX_ONE: i64 = 1000;

/// Largest magnitude a fixed-point scalar may take; results are clamped here.
pub const FX_LIM: i64 = 2_000_000_000;

/// A scalar is in range when its magnitude is at most `FX_LIM`.
pub open spec fn in_fx(x: int) -> bool {
    -(FX_LIM as int) <= x <= FX_LIM as int
}

/// Clamp a mathematical integer into the fixed-point range.
pub open spec fn fxc(x: int) -> int {
    if x < -(FX_LIM as int) {
        -(FX_LIM as int)
    } else if x > FX_LIM as int {
        FX_LIM as int
    } else {
        x
    }
}

/// Magnitude of a mathematical integer.
pub open spec fn iabs(x: int) -> int {
    if x >= 0 {
        x
    } else {
        -x
    }
}

/// Division truncating toward zero, as the machine division does.
pub open spec fn sdiv(n: int, d: int) -> int {
    if (n < 0) != (d < 0) {
        -(iabs(n) / iabs(d))
    } else {
        iabs(n) / iabs(d)
    }
}

/// Fixed-point sum: the integer sum, clamped.
pub open spec fn fx_add_spec(a: int, b: int) -> int {
    fxc(a + b)
}

/// Fixed-point difference: the integer difference, clamped.
pub open spec fn fx_sub_spec(a: int, b: int) -> int {
    fxc(a - b)
}

/// Fixed-point product: `a * b` rescaled by one thousand, truncated toward
/// zero and clamped.
pub open spec fn fx_mul_spec(a: int, b: int) -> int {
    fxc(sdiv(a * b, FX_ONE as int))
}

/// Fixed-point quotient: `a / b` rescaled by one thousand, truncated toward
/// zero and clamped. Division by zero yields zero.
pub open spec fn fx_div_spec(a: int, b: int) -> int {
    fxc(sdiv(a * (FX_ONE as int), b))
}

/// Clamp an arbitrary `i64` into the fixed-point range.
pub fn clamp_fx(x: i64) -> (r: i64)
    ensures
        r == fxc(x as int),
        in_fx(r as int),
{
    if x < -FX_LIM {
        -FX_LIM
    } else if x > FX_LIM {
        FX_LIM
    } else {
        x
    }
}

/// Clamped fixed-point addition.
pub fn fx_add(a: i64, b: i64) -> (r: i64)
    requires
        in_fx(a as int),
        in_fx(b as int),
    ensures
        r == fx_add_spec(a as int, b as int),
        in_fx(r as int),
{
    clamp_fx(a + b)
}

/// Clamped fixed-point subtraction.
pub fn fx_sub(a: i64, b: i64) -> (r: i64)
    requires
        in_fx(a as int),
        in_fx(b as int),
    ensures
        r == fx_sub_spec(a as int, b as int),
        in_fx(r as int),
{
    clamp_fx(a - b)
}

proof fn lemma_mul_signs(a: int, b: int, aa: int, ab: int)
    by (nonlinear_arith)
    requires
        aa == if a >= 0 { a } else { -a },
        ab == if b >= 0 { b } else { -b },
    ensures
        aa * ab == if a * b >= 0 { a * b } else { -(a * b) },
        (a >= 0 <==> b >= 0) || a * b <= 0,
        ((a >= 0 && b >= 0) || (a < 0 && b < 0)) ==> a * b >= 0,
        aa * ab <= 4_000_000_000_000_000_000 || aa > 2_000_000_000 || ab > 2_000_000_000,
{
}

/// Clamped fixed-point multiplication.
pub fn fx_mul(a: i64, b: i64) -> (r: i64)
    requires
        in_fx(a as int),
        in_fx(b as int),
    ensures
        r == fx_mul_spec(a as int, b as int),
        in_fx(r as int),
{
    let neg: bool = (a < 0) != (b < 0);
    let aa: i64 = if a >= 0 { a } else { -a };
    let ab: i64 = if b >= 0 { b } else { -b };
    proof {
        lemma_mul_signs(a as int, b as int, aa as int, ab as int);
    }
    let p: i64 = aa * ab;
    let q: i64 = p / FX_ONE;
    if neg {
        clamp_fx(-q)
    } else {
        clamp_fx(q)
    }
}

/// Clamped fixed-point division; yields the clamp of zero when `b` is zero.
pub fn fx_div(a: i64, b: i64) -> (r: i64)
    requires
        in_fx(a as int),
        -4_000_000_000 <= b <= 4_000_000_000,
    ensures
        b != 0 ==> r == fx_div_spec(a as int, b as int),
        b == 0 ==> r == 0,
        in_fx(r as int),
{
    if b == 0 {
        return 0;
    }
    let neg: bool = (a < 0) != (b < 0);
    let aa: i64 = if a >= 0 { a } else { -a };
    let ab: i64 = if b >= 0 { b } else { -b };
    proof {
        lemma_mul_signs(a as int, b as int, aa as int, ab as int);
        lemma_mul_signs(a as int, FX_ONE as int, aa as int, FX_ONE as int);
    }
    let num: i64 = aa * FX_ONE;
    let q: i64 = num / ab;
    if neg {
        clamp_fx(-q)
    } else {
        clamp_fx(q)
    }
}

/// Scaling by one whole unit is the identity on in-range scalars, whichever
/// side the unit stands; scaling by minus one unit negates; scaling by zero
/// gives zero.
pub proof fn lemma_fx_mul_unit(x: int)
    requires
        in_fx(x),
    ensures
        fx_mul_spec(x, FX_ONE as int) == x,
        fx_mul_spec(FX_ONE as int, x) == x,
        fx_mul_spec(-(FX_ONE as int), x) == -x,
        fx_mul_spec(x, -(FX_ONE as int)) == -x,
        fx_mul_spec(0, x) == 0,
        fx_mul_spec(x, 0) == 0,
{
    assert(0 * x == 0) by (nonlinear_arith);
    assert(x * 0 == 0) by (nonlinear_arith);
    if x >= 0 {
        vstd::arithmetic::div_mod::lemma_div_multiples_vanish(x, FX_ONE as int);
        assert(x * (FX_ONE as int) == (FX_ONE as int) * x);
        assert((-(FX_ONE as int)) * x == -((FX_ONE as int) * x)) by (nonlinear_arith);
        assert(x * (-(FX_ONE as int)) == -((FX_ONE as int) * x)) by (nonlinear_arith);
    } else {
        vstd::arithmetic::div_mod::lemma_div_multiples_vanish(-x, FX_ONE as int);
        assert((-x) * (FX_ONE as int) == (FX_ONE as int) * (-x));
        assert(x * (FX_ONE as int) == -((FX_ONE as int) * (-x))) by (nonlinear_arith);
        assert((-(FX_ONE as int)) * x == (FX_ONE as int) * (-x)) by (nonlinear_arith);
        assert(x * (-(FX_ONE as int)) == (FX_ONE as int) * (-x)) by (nonlinear_arith);
    }
}

} // verus!
