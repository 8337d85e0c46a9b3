//! Angles and integer trigonometry.
//!
//! Angles are fixed-point degrees (`FX_ONE` units to the degree) measured
//! clockwise on the screen, a full turn being `DEG_TURN` units. Sine and
//! cosine use Bhaskara's rational approximation, which is exact at every
//! quarter turn and within a fraction of a percent elsewhere — plenty for
//! aiming bullet fans. Lengths come from an exact integer square root.

use vstd::prelude::*;
use vstd::arithmetic::div_mod::{
    lemma_mod_add_multiples_vanish, lemma_mod_sub_multiples_vanish, lemma_small_mod,
};
use crate::fx::{fx_div, fx_div_spec, in_fx, FX_ONE};
use crate::cpx::{cpx_in_fx, Cpx};

verus! {

/// A quarter turn in fixed-point degrees.
pub const DEG_QUARTER: i64 = 90_000;

/// A half turn in fixed-point degrees.
pub const DEG_HALF: i64 = 180_000;

/// A full turn in fixed-point degrees.
pub const DEG_TURN: i64 = 360_000;

/// Bring an angle into `[0, DEG_TURN)`; the result is the canonical
/// representative of the same direction.
pub fn norm_deg(a: i64) -> (r: i64)
    requires
        -100_000_000_000_000 <= a <= 100_000_000_000_000,
    ensures
        r == a as int % (DEG_TURN as int),
        0 <= r < DEG_TURN,
{
    let mut r: i64 = a;
    while r < 0
        invariant
            r as int % (DEG_TURN as int) == a as int % (DEG_TURN as int),
            -100_000_000_000_000 <= r <= 100_000_000_000_000,
        decreases (if r < 0 { -r } else { 0 }) as int,
    {
        proof {
            lemma_mod_add_multiples_vanish(r as int, DEG_TURN as int);
        }
        r = r + DEG_TURN;
    }
    while r >= DEG_TURN
        invariant
            r as int % (DEG_TURN as int) == a as int % (DEG_TURN as int),
            0 <= r <= 100_000_000_000_000,
        decreases r,
    {
        proof {
            lemma_mod_sub_multiples_vanish(r as int, DEG_TURN as int);
        }
        r = r - DEG_TURN;
    }
    proof {
        lemma_small_mod(r as nat, DEG_TURN as nat);
    }
    r
}

/// Bhaskara's sine approximation on `[0, DEG_HALF]`, scaled so a sine of one
/// is `FX_ONE`. Exact at zero, a quarter turn and a half turn.
pub open spec fn half_sin_spec(x: int) -> int {
    let u = x * ((DEG_HALF as int) - x);
    (4 * u * (FX_ONE as int)) / (40_500_000_000 - u)
}

proof fn lemma_half_sin_bounds(x: int)
    by (nonlinear_arith)
    requires
        0 <= x <= DEG_HALF as int,
    ensures
        0 <= x * ((DEG_HALF as int) - x) <= 8_100_000_000,
{
}

fn half_sin(x: i64) -> (r: i64)
    requires
        0 <= x <= DEG_HALF,
    ensures
        r == half_sin_spec(x as int),
        0 <= r <= FX_ONE,
        x == 0 ==> r == 0,
        x == DEG_QUARTER ==> r == FX_ONE,
        x == DEG_HALF ==> r == 0,
{
    proof {
        lemma_half_sin_bounds(x as int);
    }
    let u: i64 = x * (DEG_HALF - x);
    let num: i64 = 4 * u * FX_ONE;
    let den: i64 = 40_500_000_000 - u;
    let r: i64 = num / den;
    proof {
        assert(num <= den * 1000) by {
            assert(4 * u * (FX_ONE as int) == 4000 * u) by (nonlinear_arith);
        };
        assert(r <= FX_ONE) by {
            assert(num / den <= 1000) by (nonlinear_arith)
                requires
                    den > 0,
                    0 <= num <= den * 1000;
        };
        if x == DEG_QUARTER {
            assert(u == 8_100_000_000) by (nonlinear_arith)
                requires
                    x == 90_000,
                    u == x * (DEG_HALF as int - x);
            assert(32_400_000_000_000int / 32_400_000_000int == 1000) by (nonlinear_arith);
        }
        if x == 0 || x == DEG_HALF {
            assert(u == 0) by (nonlinear_arith)
                requires
                    x == 0 || x == DEG_HALF as int,
                    u == x * (DEG_HALF as int - x);
            assert(0int / 40_500_000_000int == 0) by (nonlinear_arith);
        }
    }
    r
}

/// Sine of an angle in `[0, DEG_TURN)`, scaled by `FX_ONE`. Screen
/// coordinates run downward, so a quarter turn points down the screen.
pub open spec fn sin_spec(a: int) -> int {
    if a <= DEG_HALF as int {
        half_sin_spec(a)
    } else {
        -half_sin_spec(a - DEG_HALF as int)
    }
}

/// Cosine of an angle in `[0, DEG_TURN)`, scaled by `FX_ONE`.
pub open spec fn cos_spec(a: int) -> int {
    sin_spec((a + DEG_QUARTER as int) % (DEG_TURN as int))
}

/// Sine of a normalized angle.
pub fn sin_deg(a: i64) -> (r: i64)
    requires
        0 <= a < DEG_TURN,
    ensures
        r == sin_spec(a as int),
        -FX_ONE <= r <= FX_ONE,
        a == 0 ==> r == 0,
        a == DEG_QUARTER ==> r == FX_ONE,
        a == DEG_HALF ==> r == 0,
        a == DEG_HALF + DEG_QUARTER ==> r == -FX_ONE,
{
    if a <= DEG_HALF {
        half_sin(a)
    } else {
        -half_sin(a - DEG_HALF)
    }
}

/// Cosine of a normalized angle.
pub fn cos_deg(a: i64) -> (r: i64)
    requires
        0 <= a < DEG_TURN,
    ensures
        r == cos_spec(a as int),
        -FX_ONE <= r <= FX_ONE,
        a == 0 ==> r == FX_ONE,
        a == DEG_QUARTER ==> r == 0,
        a == DEG_HALF ==> r == -FX_ONE,
        a == DEG_HALF + DEG_QUARTER ==> r == 0,
{
    if a + DEG_QUARTER >= DEG_TURN {
        proof {
            lemma_mod_sub_multiples_vanish((a + DEG_QUARTER) as int, DEG_TURN as int);
            lemma_small_mod((a + DEG_QUARTER - DEG_TURN) as nat, DEG_TURN as nat);
        }
        sin_deg(a + DEG_QUARTER - DEG_TURN)
    } else {
        proof {
            lemma_small_mod((a + DEG_QUARTER) as nat, DEG_TURN as nat);
        }
        sin_deg(a + DEG_QUARTER)
    }
}

/// The unit vector pointing along an angle: cosine right, sine down.
pub open spec fn dir_spec(a: int) -> Cpx {
    Cpx { re: cos_spec(a) as i64, im: sin_spec(a) as i64 }
}

/// Unit direction vector of a normalized angle.
pub fn dir_deg(a: i64) -> (r: Cpx)
    requires
        0 <= a < DEG_TURN,
    ensures
        r == dir_spec(a as int),
        cpx_in_fx(r),
        -FX_ONE <= r.re <= FX_ONE,
        -FX_ONE <= r.im <= FX_ONE,
{
    Cpx { re: cos_deg(a), im: sin_deg(a) }
}

/// Floor of the square root of a non-negative integer.
pub open spec fn is_sqrt(n: int, r: int) -> bool {
    r >= 0 && r * r <= n < (r + 1) * (r + 1)
}

/// Exact integer square root by bisection.
pub fn isqrt(n: u64) -> (r: u64)
    requires
        n <= 0x7fff_ffff_ffff_ffff,
    ensures
        is_sqrt(n as int, r as int),
        r <= 3_037_000_499,
{
    let mut lo: u64 = 0;
    let mut hi: u64 = 3_037_000_499;
    proof {
        assert((3_037_000_499 + 1) * (3_037_000_499 + 1) > 0x7fff_ffff_ffff_ffff)
            by (nonlinear_arith);
    }
    while lo < hi
        invariant
            lo <= hi <= 3_037_000_499,
            (lo * lo) as int <= n as int,
            ((hi + 1) * (hi + 1)) as int > n as int,
        decreases hi - lo,
    {
        let mid: u64 = lo + (hi - lo + 1) / 2;
        proof {
            assert(lo < mid <= hi);
            assert(mid * mid <= 3_037_000_500 * 3_037_000_500 < 0xffff_ffff_ffff_ffff)
                by (nonlinear_arith)
                requires
                    mid <= 3_037_000_499;
        }
        if mid * mid <= n {
            lo = mid;
        } else {
            hi = mid - 1;
        }
    }
    lo
}

/// Length of a vector in fixed-point units: the integer square root of the
/// sum of the squared components.
pub open spec fn norm_spec(v: Cpx) -> int {
    (v.re * v.re + v.im * v.im) as int
}

/// Fixed-point length of a vector.
pub fn norm_fx(v: &Cpx) -> (r: i64)
    requires
        cpx_in_fx(*v),
    ensures
        is_sqrt(norm_spec(*v), r as int),
        0 <= r <= 3_037_000_499,
        v.re == 0 && v.im == 0 ==> r == 0,
        r as int >= if v.re >= 0 { v.re as int } else { -(v.re as int) },
        r as int >= if v.im >= 0 { v.im as int } else { -(v.im as int) },
{
    proof {
        assert(v.re * v.re + v.im * v.im <= 0x7fff_ffff_ffff_ffff
            && v.re * v.re >= 0 && v.im * v.im >= 0) by (nonlinear_arith)
            requires
                in_fx(v.re as int),
                in_fx(v.im as int);
    }
    let a: i64 = if v.re >= 0 { v.re } else { -v.re };
    let b: i64 = if v.im >= 0 { v.im } else { -v.im };
    proof {
        assert(a * a == v.re * v.re && b * b == v.im * v.im) by (nonlinear_arith)
            requires
                a as int == (if v.re >= 0 { v.re as int } else { -(v.re as int) })
                    && b as int == (if v.im >= 0 { v.im as int } else { -(v.im as int) });
    }
    let n: u64 = (a * a) as u64 + (b * b) as u64;
    let r: u64 = isqrt(n);
    proof {
        assert(r as int >= a as int && r as int >= b as int) by (nonlinear_arith)
            requires
                a >= 0,
                b >= 0,
                is_sqrt(a as int * a as int + b as int * b as int, r as int);
        if v.re == 0 && v.im == 0 {
            assert(r == 0) by (nonlinear_arith)
                requires
                    r >= 0,
                    (r as int) * (r as int) <= (a as int) * (a as int) + (b as int) * (b as int),
                    a == 0,
                    b == 0;
        }
    }
    r as i64
}

/// The floor of a square root, as a mathematical function.
pub open spec fn sqrt_floor(n: int) -> int {
    choose|r: int| is_sqrt(n, r)
}

/// Two floors of the same square root agree.
pub proof fn lemma_sqrt_unique(n: int, r1: int, r2: int)
    by (nonlinear_arith)
    requires
        is_sqrt(n, r1),
        is_sqrt(n, r2),
    ensures
        r1 == r2,
{
}

/// A witness pins `sqrt_floor` down.
pub proof fn lemma_sqrt_floor(n: int, r: int)
    requires
        is_sqrt(n, r),
    ensures
        sqrt_floor(n) == r,
{
    assert(is_sqrt(n, sqrt_floor(n))) by {
        assert(exists|w: int| is_sqrt(n, w));
    };
    lemma_sqrt_unique(n, sqrt_floor(n), r);
}

/// Direction from `a` to `b`: the difference scaled to (nearly) unit length,
/// or zero when the points coincide.
pub open spec fn dir_to_spec(a: Cpx, b: Cpx) -> Cpx {
    let dre = crate::fx::fx_sub_spec(b.re as int, a.re as int);
    let dim = crate::fx::fx_sub_spec(b.im as int, a.im as int);
    let n = sqrt_floor(dre * dre + dim * dim);
    if n == 0 {
        Cpx { re: 0, im: 0 }
    } else {
        Cpx { re: fx_div_spec(dre, n) as i64, im: fx_div_spec(dim, n) as i64 }
    }
}

/// Unit direction vector from `a` toward `b`; zero when the points coincide.
pub fn dir_to(a: &Cpx, b: &Cpx) -> (r: Cpx)
    requires
        cpx_in_fx(*a),
        cpx_in_fx(*b),
    ensures
        r == dir_to_spec(*a, *b),
        -FX_ONE <= r.re <= FX_ONE,
        -FX_ONE <= r.im <= FX_ONE,
        cpx_in_fx(r),
{
    let d = b.minus(a);
    let n = norm_fx(&d);
    proof {
        lemma_sqrt_floor(norm_spec(d), n as int);
    }
    if n == 0 {
        Cpx { re: 0, im: 0 }
    } else {
        let re = fx_div(d.re, n);
        let im = fx_div(d.im, n);
        proof {
            lemma_unit_div(d.re as int, n as int);
            lemma_unit_div(d.im as int, n as int);
        }
        Cpx { re, im }
    }
}

/// Dividing a component by a length at least its magnitude stays within one
/// fixed-point unit.
proof fn lemma_unit_div(d: int, n: int)
    by (nonlinear_arith)
    requires
        n > 0,
        d <= n,
        -d <= n,
    ensures
        -(FX_ONE as int) <= fx_div_spec(d, n) <= FX_ONE as int,
{
}

/// Bhaskara's sine inverted on a quarter turn: the angle in
/// `[0, DEG_QUARTER]` whose approximate sine is `s` thousandths, found by
/// solving the rational formula for its parabola offset with the integer
/// square root.
pub open spec fn asin_apx_spec(s: int) -> int {
    let u = (40_500_000_000 * s) / (4000 + s);
    (DEG_QUARTER as int) - sqrt_floor(8_100_000_000 - u)
}

/// Approximate arc sine of a sine given in thousandths.
pub fn asin_apx(s: i64) -> (r: i64)
    requires
        0 <= s <= FX_ONE,
    ensures
        r == asin_apx_spec(s as int),
        0 <= r <= DEG_QUARTER,
        s == 0 ==> r == 0,
{
    let num: i64 = 40_500_000_000 * s;
    let den: i64 = 4000 + s;
    let u: i64 = num / den;
    proof {
        assert(num <= 8_100_000_000 * den) by (nonlinear_arith)
            requires
                num == 40_500_000_000 * (s as int),
                den == 4000 + s,
                0 <= s <= 1000;
        vstd::arithmetic::div_mod::lemma_div_is_ordered(num as int, 8_100_000_000 * (den as int),
            den as int);
        vstd::arithmetic::div_mod::lemma_div_multiples_vanish(8_100_000_000, den as int);
        assert(8_100_000_000 * (den as int) == (den as int) * 8_100_000_000)
            by (nonlinear_arith);
        assert(0 <= u <= 8_100_000_000);
        if s == 0 {
            assert(0int / 4000 == 0) by (nonlinear_arith);
        }
    }
    let v: u64 = (8_100_000_000 - u) as u64;
    let q: u64 = isqrt(v);
    proof {
        lemma_sqrt_floor(v as int, q as int);
        assert(q <= 90_000) by (nonlinear_arith)
            requires
                q >= 0,
                (q as int) * (q as int) <= 8_100_000_000;
        if s == 0 {
            assert(is_sqrt(8_100_000_000, 90_000)) by (nonlinear_arith);
            lemma_sqrt_unique(8_100_000_000, q as int, 90_000);
        }
    }
    DEG_QUARTER - (q as i64)
}

/// The flight angle of a velocity: zero for the zero vector; otherwise the
/// approximate arc sine of the normalized downward component, placed in the
/// quadrant the component signs pick, so that `dir_spec` of the result
/// points along `v` up to the sine approximation.
pub open spec fn angle_of_spec(v: Cpx) -> int {
    let n = sqrt_floor(v.re * v.re + v.im * v.im);
    if n == 0 {
        0
    } else {
        let s = if v.im >= 0 {
            fx_div_spec(v.im as int, n)
        } else {
            fx_div_spec(-(v.im as int), n)
        };
        let base = asin_apx_spec(s);
        if v.im >= 0 {
            if v.re >= 0 {
                base
            } else {
                (DEG_HALF as int) - base
            }
        } else {
            if v.re < 0 {
                (DEG_HALF as int) + base
            } else {
                ((DEG_TURN as int) - base) % (DEG_TURN as int)
            }
        }
    }
}

/// Flight angle of a velocity vector, a normalized fixed-point angle.
pub fn angle_of(v: &Cpx) -> (r: i64)
    requires
        cpx_in_fx(*v),
    ensures
        r == angle_of_spec(*v),
        0 <= r < DEG_TURN,
{
    let n = norm_fx(v);
    proof {
        lemma_sqrt_floor(norm_spec(*v), n as int);
    }
    if n == 0 {
        return 0;
    }
    let a_im: i64 = if v.im >= 0 {
        v.im
    } else {
        -v.im
    };
    let s = fx_div(a_im, n);
    proof {
        assert(0 <= (a_im as int) * (FX_ONE as int) / (n as int) <= FX_ONE as int)
            by (nonlinear_arith)
            requires
                0 <= a_im <= n,
                n > 0;
        assert(s == fx_div_spec(a_im as int, n as int));
        assert(0 <= s <= FX_ONE);
    }
    let base = asin_apx(s);
    if v.im >= 0 {
        if v.re >= 0 {
            base
        } else {
            DEG_HALF - base
        }
    } else {
        if v.re < 0 {
            DEG_HALF + base
        } else {
            proof {
                if base == 0 {
                    assert((360_000int) % 360_000 == 0) by (nonlinear_arith);
                } else {
                    lemma_small_mod((DEG_TURN - base) as nat, DEG_TURN as nat);
                }
            }
            if base == 0 {
                0
            } else {
                DEG_TURN - base
            }
        }
    }
}

} // verus!
