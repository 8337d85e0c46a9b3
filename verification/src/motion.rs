//! Movement parameters and the kinematics step.
//!
//! `MoveParams` carries velocity, acceleration, an exponential velocity decay
//! (`retention`) and an optional attraction toward a fixed point. One
//! `update` advances the position by the velocity at the start of the step
//! (explicit Euler with the pre-update velocity), then recomputes the
//! velocity. The named constructors encode the motion laws the game uses:
//! linear, accelerated, dampened, homing and asymptotic relaxation.

use vstd::prelude::*;
use crate::cpx::{cadd_spec, cmul_spec, cpx_in_fx, cscale_spec, csub_spec, Cpx};
use crate::fx::{fx_div, fx_div_spec, fx_mul, fx_mul_spec, fx_sub_spec, iabs, in_fx, sdiv, FX_LIM,
    FX_ONE};
use crate::trig::{is_sqrt, isqrt, lemma_sqrt_floor, norm_fx, norm_spec, sqrt_floor};

verus! {

/// Parameters of an entity's motion, replaced wholesale when the behaviour
/// changes.
#[derive(Clone, Copy, Debug, PartialEq, Eq, Structural)]
pub struct MoveParams {
    /// Current velocity, fixed-point pixels per second.
    pub velocity: Cpx,
    /// Acceleration, fixed-point pixels per second squared.
    pub acceleration: Cpx,
    /// Velocity kept per step: one thousand keeps all, zero stops dead.
    pub retention: i64,
    /// Attraction strength toward `attraction_point`; zero disables homing.
    pub attraction: Cpx,
    /// Point the attraction pulls toward.
    pub attraction_point: Cpx,
    /// Exponent shaping how the pull falls off with distance; one thousand
    /// is the linear pull.
    pub attraction_exponent: i64,
}

/// All motion fields are in the fixed-point range.
pub open spec fn mp_in_fx(m: MoveParams) -> bool {
    cpx_in_fx(m.velocity) && cpx_in_fx(m.acceleration) && in_fx(m.retention as int)
        && cpx_in_fx(m.attraction) && cpx_in_fx(m.attraction_point)
        && in_fx(m.attraction_exponent as int)
}

/// Fixed-point square root: the square root of `b` units is
/// `sqrt_floor(b * FX_ONE)` units.
pub open spec fn sqrt_fx_spec(b: int) -> int {
    sqrt_floor(b * (FX_ONE as int))
}

/// Repeated half-power: multiply one by the square root `s` for each of `q`
/// half-steps, dividing instead when `q` is negative. A zero base with a
/// negative `q` yields zero.
pub open spec fn half_pow_spec(s: int, q: int) -> int
    decreases iabs(q),
{
    if q == 0 {
        FX_ONE as int
    } else if q > 0 {
        fx_mul_spec(half_pow_spec(s, q - 1), s)
    } else if s == 0 {
        0
    } else {
        fx_div_spec(half_pow_spec(s, q + 1), s)
    }
}

/// Power with a half-step exponent: `b` raised to `e - 1/2`, rounded to the
/// nearest lower half-step, computed from the fixed-point square root of `b`.
pub open spec fn powf_spec(b: int, e: int) -> int {
    half_pow_spec(sqrt_fx_spec(b), sdiv(2 * e - (FX_ONE as int), FX_ONE as int))
}

/// The velocity after one step: acceleration integrated, retention applied,
/// then the attraction contribution if any.
pub open spec fn step_velocity_spec(m: MoveParams, pos1: Cpx, dt: int) -> Cpx {
    let base = cadd_spec(cscale_spec(m.acceleration, dt), cscale_spec(m.velocity, m.retention as int));
    if m.attraction.re == 0 && m.attraction.im == 0 {
        base
    } else {
        let av = csub_spec(m.attraction_point, pos1);
        if m.attraction_exponent == FX_ONE as int {
            cadd_spec(base, cscale_spec(cmul_spec(m.attraction, av), dt))
        } else {
            let mag = powf_spec(sqrt_floor(av.re * av.re + av.im * av.im),
                m.attraction_exponent as int);
            cadd_spec(base, cscale_spec(cscale_spec(cmul_spec(m.attraction, av), mag), dt))
        }
    }
}

/// One kinematics step: the new position and the new motion parameters.
pub open spec fn motion_step_spec(m: MoveParams, pos: Cpx, dt: int) -> (MoveParams, Cpx) {
    let pos1 = cadd_spec(pos, cscale_spec(m.velocity, dt));
    let vel1 = step_velocity_spec(m, pos1, dt);
    (MoveParams { velocity: vel1, ..m }, pos1)
}

/// Fixed-point square root of a non-negative scalar.
pub fn sqrt_fx(b: i64) -> (r: i64)
    requires
        0 <= b <= 3_100_000_000,
    ensures
        r == sqrt_fx_spec(b as int),
        0 <= r,
        in_fx(r as int),
{
    let n: u64 = (b * FX_ONE) as u64;
    let r: u64 = isqrt(n);
    proof {
        lemma_sqrt_floor((b * FX_ONE) as int, r as int);
        assert(r as int * r as int <= 3_100_000_000_000) by (nonlinear_arith)
            requires
                is_sqrt(b as int * (FX_ONE as int), r as int),
                b as int * (FX_ONE as int) <= 3_100_000_000_000;
        assert(r <= 2_000_000) by (nonlinear_arith)
            requires
                r as int * r as int <= 3_100_000_000_000;
    }
    r as i64
}

/// Repeated half-power of a fixed-point square root.
pub fn half_pow(s: i64, q: i64) -> (r: i64)
    requires
        0 <= s,
        in_fx(s as int),
    ensures
        r == half_pow_spec(s as int, q as int),
        in_fx(r as int),
{
    let mut acc: i64 = FX_ONE;
    let mut left: i64 = q;
    if q >= 0 {
        while left > 0
            invariant
                0 <= left <= q,
                0 <= s,
                in_fx(s as int),
                in_fx(acc as int),
                acc == half_pow_spec(s as int, q as int - left as int),
            decreases left,
        {
            acc = fx_mul(acc, s);
            left = left - 1;
        }
        acc
    } else {
        if s == 0 {
            return 0;
        }
        while left < 0
            invariant
                q <= left <= 0,
                0 < s,
                in_fx(s as int),
                in_fx(acc as int),
                acc == half_pow_spec(s as int, q as int - left as int),
            decreases -left,
        {
            acc = fx_div(acc, s);
            left = left + 1;
        }
        acc
    }
}

impl MoveParams {
    /// Advance `pos` by one step of `delta` seconds and refresh the
    /// velocity; the velocity from before the step comes back, so a caller
    /// can read the displacement.
    pub fn update(&mut self, pos: &mut Cpx, delta: i64) -> (r: Cpx)
        requires
            mp_in_fx(*old(self)),
            cpx_in_fx(*old(pos)),
            in_fx(delta as int),
        ensures
            r == old(self).velocity,
            *final(self) == motion_step_spec(*old(self), *old(pos), delta as int).0,
            *final(pos) == motion_step_spec(*old(self), *old(pos), delta as int).1,
            mp_in_fx(*final(self)),
            cpx_in_fx(*final(pos)),
    {
        let orig_velocity = self.velocity;
        *pos = pos.plus(&orig_velocity.scale(delta));

        self.velocity = self.acceleration.scale(delta).plus(&orig_velocity.scale(self.retention));

        if !(self.attraction.re == 0 && self.attraction.im == 0) {
            let av = self.attraction_point.minus(pos);

            if self.attraction_exponent == FX_ONE {
                self.velocity = self.velocity.plus(&self.attraction.times(&av).scale(delta));
            } else {
                let n = norm_fx(&av);
                proof {
                    lemma_sqrt_floor(norm_spec(av), n as int);
                }
                let m = powf_fx(n, self.attraction_exponent);
                self.velocity = self.velocity.plus(
                    &self.attraction.times(&av).scale(m).scale(delta),
                );
            }
        }

        orig_velocity
    }

    /// The parameters after one step from `pos`, the position itself left
    /// where it was.
    pub fn move_next(pos: Cpx, move_params: MoveParams, delta_time: i64) -> (r: MoveParams)
        requires
            mp_in_fx(move_params),
            cpx_in_fx(pos),
            in_fx(delta_time as int),
        ensures
            r == motion_step_spec(move_params, pos, delta_time as int).0,
            mp_in_fx(r),
    {
        let mut m = move_params;
        let mut p = pos;
        m.update(&mut p, delta_time);
        m
    }

    /// Velocity relaxing from `vel0` toward `vel1`: each step keeps
    /// `retention` of the old velocity and feeds in the complement of the
    /// target.
    pub fn move_asymptotic(vel0: Cpx, vel1: Cpx, retention: Cpx) -> (r: MoveParams)
        requires
            cpx_in_fx(vel0),
            cpx_in_fx(vel1),
            cpx_in_fx(retention),
        ensures
            r == (MoveParams {
                velocity: vel0,
                acceleration: cmul_spec(vel1, csub_spec(Cpx { re: FX_ONE, im: 0 }, retention)),
                retention: retention.re,
                attraction: Cpx { re: 0, im: 0 },
                attraction_point: Cpx { re: 0, im: 0 },
                attraction_exponent: FX_ONE,
            }),
            mp_in_fx(r),
    {
        MoveParams {
            velocity: vel0,
            acceleration: vel1.times(&Cpx::new(FX_ONE, 0).minus(&retention)),
            retention: retention.re,
            attraction: Cpx::zero(),
            attraction_point: Cpx::zero(),
            attraction_exponent: FX_ONE,
        }
    }

    /// Asymptotic motion whose retention is derived from a half-life in
    /// seconds.
    pub fn move_asymptotic_halflife(vel0: Cpx, vel1: Cpx, halflife: i64) -> (r: MoveParams)
        requires
            cpx_in_fx(vel0),
            cpx_in_fx(vel1),
            in_fx(halflife as int),
        ensures
            r == (MoveParams {
                velocity: vel0,
                acceleration: cmul_spec(
                    vel1,
                    csub_spec(
                        Cpx { re: FX_ONE, im: 0 },
                        Cpx { re: retention_halflife_spec(halflife as int) as i64, im: 0 },
                    ),
                ),
                retention: retention_halflife_spec(halflife as int) as i64,
                attraction: Cpx { re: 0, im: 0 },
                attraction_point: Cpx { re: 0, im: 0 },
                attraction_exponent: FX_ONE,
            }),
            mp_in_fx(r),
    {
        let retention = Cpx::new(retention_for_halflife(halflife), 0);
        Self::move_asymptotic(vel0, vel1, retention)
    }

    /// Asymptotic motion toward `vel`, starting boosted by `boost_factor`.
    pub fn move_asymptotic_simple(vel: Cpx, boost_factor: i64) -> (r: MoveParams)
        requires
            cpx_in_fx(vel),
            in_fx(boost_factor as int),
            in_fx(FX_ONE as int + boost_factor as int),
        ensures
            r == (MoveParams {
                velocity: cmul_spec(vel, Cpx { re: (FX_ONE + boost_factor as int) as i64, im: 0 }),
                acceleration: cmul_spec(vel, csub_spec(Cpx { re: FX_ONE, im: 0 },
                    Cpx { re: 800, im: 0 })),
                retention: 800,
                attraction: Cpx { re: 0, im: 0 },
                attraction_point: Cpx { re: 0, im: 0 },
                attraction_exponent: FX_ONE,
            }),
            mp_in_fx(r),
    {
        let retention: i64 = 800;
        Self::move_asymptotic(
            vel.times(&Cpx::new(FX_ONE + boost_factor, 0)),
            vel,
            Cpx::new(retention, 0),
        )
    }

    /// Homing toward `target`, run for a zero-length step so the parameters
    /// start from rest.
    pub fn move_from_towards(origin: Cpx, target: Cpx, attraction: Cpx) -> (r: MoveParams)
        requires
            cpx_in_fx(origin),
            cpx_in_fx(target),
            cpx_in_fx(attraction),
        ensures
            r == motion_step_spec(
                move_towards_spec(Cpx { re: 0, im: 0 }, target, attraction),
                origin,
                0,
            ).0,
            mp_in_fx(r),
    {
        let towards_move = Self::move_towards(Cpx::zero(), target, attraction);
        Self::move_next(origin, towards_move, 0)
    }

    /// Homing toward `target` with a power-law pull.
    pub fn move_towards_exp(vel: Cpx, target: Cpx, attraction: Cpx, exponent: i64) -> (r:
        MoveParams)
        requires
            cpx_in_fx(vel),
            cpx_in_fx(target),
            cpx_in_fx(attraction),
            in_fx(exponent as int),
        ensures
            r == (MoveParams {
                velocity: vel,
                acceleration: Cpx { re: 0, im: 0 },
                retention: FX_ONE,
                attraction,
                attraction_point: target,
                attraction_exponent: exponent,
            }),
            mp_in_fx(r),
    {
        MoveParams {
            velocity: vel,
            acceleration: Cpx::zero(),
            retention: FX_ONE,
            attraction,
            attraction_point: target,
            attraction_exponent: exponent,
        }
    }

    /// Power-law homing, run for a zero-length step so the parameters start
    /// from rest.
    pub fn move_from_towards_exp(
        origin: Cpx,
        target: Cpx,
        attraction: Cpx,
        exponent: i64,
    ) -> (r: MoveParams)
        requires
            cpx_in_fx(origin),
            cpx_in_fx(target),
            cpx_in_fx(attraction),
            in_fx(exponent as int),
        ensures
            r == motion_step_spec(
                MoveParams {
                    velocity: Cpx { re: 0, im: 0 },
                    acceleration: Cpx { re: 0, im: 0 },
                    retention: FX_ONE,
                    attraction,
                    attraction_point: target,
                    attraction_exponent: exponent,
                },
                origin,
                0,
            ).0,
            mp_in_fx(r),
    {
        let towards_exp_move = Self::move_towards_exp(Cpx::zero(), target, attraction, exponent);
        Self::move_next(origin, towards_exp_move, 0)
    }

    /// Exponential decay toward rest: no acceleration, a retention below
    /// one.
    pub fn move_dampen(vel: Cpx, retention: i64) -> (r: MoveParams)
        requires
            cpx_in_fx(vel),
            in_fx(retention as int),
        ensures
            r == move_dampen_spec(vel, retention),
            mp_in_fx(r),
    {
        MoveParams {
            velocity: vel,
            acceleration: Cpx::zero(),
            retention,
            attraction: Cpx::zero(),
            attraction_point: Cpx::zero(),
            attraction_exponent: FX_ONE,
        }
    }

    /// Linear homing toward `target`.
    pub fn move_towards(vel: Cpx, target: Cpx, attraction: Cpx) -> (r: MoveParams)
        requires
            cpx_in_fx(vel),
            cpx_in_fx(target),
            cpx_in_fx(attraction),
        ensures
            r == move_towards_spec(vel, target, attraction),
            mp_in_fx(r),
    {
        MoveParams {
            velocity: vel,
            acceleration: Cpx::zero(),
            retention: FX_ONE,
            attraction,
            attraction_point: target,
            attraction_exponent: FX_ONE,
        }
    }

    /// Constant velocity.
    pub fn move_linear(vel: Cpx) -> (r: MoveParams)
        requires
            cpx_in_fx(vel),
        ensures
            r == move_linear_spec(vel),
            mp_in_fx(r),
    {
        MoveParams {
            velocity: vel,
            acceleration: Cpx::zero(),
            retention: FX_ONE,
            attraction: Cpx::zero(),
            attraction_point: Cpx::zero(),
            attraction_exponent: FX_ONE,
        }
    }

    /// Constant acceleration.
    pub fn move_accelerated(vel: Cpx, accel: Cpx) -> (r: MoveParams)
        requires
            cpx_in_fx(vel),
            cpx_in_fx(accel),
        ensures
            r == (MoveParams {
                velocity: vel,
                acceleration: accel,
                retention: FX_ONE,
                attraction: Cpx { re: 0, im: 0 },
                attraction_point: Cpx { re: 0, im: 0 },
                attraction_exponent: FX_ONE,
            }),
            mp_in_fx(r),
    {
        MoveParams {
            velocity: vel,
            acceleration: accel,
            retention: FX_ONE,
            attraction: Cpx::zero(),
            attraction_point: Cpx::zero(),
            attraction_exponent: FX_ONE,
        }
    }
}

/// The parameters `move_linear` builds.
pub open spec fn move_linear_spec(vel: Cpx) -> MoveParams {
    MoveParams {
        velocity: vel,
        acceleration: Cpx { re: 0, im: 0 },
        retention: FX_ONE,
        attraction: Cpx { re: 0, im: 0 },
        attraction_point: Cpx { re: 0, im: 0 },
        attraction_exponent: FX_ONE,
    }
}

/// The parameters `move_dampen` builds.
pub open spec fn move_dampen_spec(vel: Cpx, retention: i64) -> MoveParams {
    MoveParams {
        velocity: vel,
        acceleration: Cpx { re: 0, im: 0 },
        retention,
        attraction: Cpx { re: 0, im: 0 },
        attraction_point: Cpx { re: 0, im: 0 },
        attraction_exponent: FX_ONE,
    }
}

/// The parameters `move_towards` builds.
pub open spec fn move_towards_spec(vel: Cpx, target: Cpx, attraction: Cpx) -> MoveParams {
    MoveParams {
        velocity: vel,
        acceleration: Cpx { re: 0, im: 0 },
        retention: FX_ONE,
        attraction,
        attraction_point: target,
        attraction_exponent: FX_ONE,
    }
}

/// The retention that halves what remains each `halflife` seconds: a
/// rational approximation of the exponential decay constant, exact at a
/// half-life of one second.
pub open spec fn retention_halflife_spec(h: int) -> int {
    if 3 * h <= FX_ONE as int {
        0
    } else {
        ((3 * h - FX_ONE as int) * (FX_ONE as int)) / (3 * h + FX_ONE as int)
    }
}

/// Retention for a half-life in seconds.
pub fn retention_for_halflife(h: i64) -> (r: i64)
    requires
        in_fx(h as int),
    ensures
        r == retention_halflife_spec(h as int),
        0 <= r < FX_ONE,
        h == FX_ONE ==> r == FX_ONE / 2,
{
    if 3 * h <= FX_ONE {
        0
    } else {
        let num: i64 = (3 * h - FX_ONE) * FX_ONE;
        let den: i64 = 3 * h + FX_ONE;
        let r = num / den;
        proof {
            assert(num >= 0 && num < den * 1000) by (nonlinear_arith)
                requires
                    num == (3 * (h as int) - 1000) * 1000,
                    den == 3 * (h as int) + 1000,
                    3 * (h as int) > 1000;
            assert(num / den < 1000) by (nonlinear_arith)
                requires
                    den > 0,
                    0 <= num < den * 1000;
            if h == FX_ONE {
                assert(2_000_000int / 4_000int == 500) by (nonlinear_arith);
            }
        }
        r
    }
}

/// Power with a half-step exponent, on a fixed-point length.
pub fn powf_fx(n: i64, exponent: i64) -> (r: i64)
    requires
        0 <= n <= 3_100_000_000,
        in_fx(exponent as int),
    ensures
        r == powf_spec(n as int, exponent as int),
        in_fx(r as int),
{
    let s = sqrt_fx(n);
    let q: i64 = {
        let t: i64 = 2 * exponent - FX_ONE;
        if t >= 0 { t / FX_ONE } else { -((-t) / FX_ONE) }
    };
    proof {
        assert(q as int == sdiv(2 * (exponent as int) - (FX_ONE as int), FX_ONE as int));
    }
    half_pow(s, q)
}

/// Scaling by a full unit leaves an in-range scalar unchanged.
proof fn lemma_fx_mul_one(x: int)
    requires
        in_fx(x),
    ensures
        fx_mul_spec(x, FX_ONE as int) == x,
{
    if x >= 0 {
        vstd::arithmetic::div_mod::lemma_div_multiples_vanish(x, FX_ONE as int);
        assert(x * (FX_ONE as int) == (FX_ONE as int) * x);
    } else {
        vstd::arithmetic::div_mod::lemma_div_multiples_vanish(-x, FX_ONE as int);
        assert((-x) * (FX_ONE as int) == (FX_ONE as int) * (-x));
    }
}

/// Scaling zero gives zero.
proof fn lemma_fx_mul_zero_left(y: int)
    ensures
        fx_mul_spec(0, y) == 0,
        fx_mul_spec(y, 0) == 0,
{
    assert(0 * y == 0) by (nonlinear_arith);
    assert(y * 0 == 0) by (nonlinear_arith);
}

/// Linear motion: after one step of `move_linear(v)` over `dt` seconds, the
/// position has advanced by exactly the fixed-point product of velocity and
/// time, and the velocity and every other parameter are unchanged. The
/// hypotheses only keep the displaced position inside the fixed-point range.
pub proof fn lemma_linear_motion(v: Cpx, p0: Cpx, dt: i64)
    requires
        cpx_in_fx(v),
        cpx_in_fx(p0),
        in_fx(dt as int),
        in_fx(sdiv(v.re as int * dt as int, FX_ONE as int)),
        in_fx(sdiv(v.im as int * dt as int, FX_ONE as int)),
        in_fx(p0.re as int + sdiv(v.re as int * dt as int, FX_ONE as int)),
        in_fx(p0.im as int + sdiv(v.im as int * dt as int, FX_ONE as int)),
    ensures
        motion_step_spec(move_linear_spec(v), p0, dt as int).1.re as int
            == p0.re as int + sdiv(v.re as int * dt as int, FX_ONE as int),
        motion_step_spec(move_linear_spec(v), p0, dt as int).1.im as int
            == p0.im as int + sdiv(v.im as int * dt as int, FX_ONE as int),
        motion_step_spec(move_linear_spec(v), p0, dt as int).0 == move_linear_spec(v),
{
    lemma_fx_mul_one(v.re as int);
    lemma_fx_mul_one(v.im as int);
    lemma_fx_mul_zero_left(dt as int);
}

/// One dampened component shrinks: the product with a retention below one
/// never grows a component, and strictly shrinks a nonzero one.
proof fn lemma_damp_component(x: int, r: int)
    requires
        in_fx(x),
        0 < r < FX_ONE as int,
    ensures
        iabs(fx_mul_spec(x, r)) <= iabs(x),
        x != 0 ==> iabs(fx_mul_spec(x, r)) < iabs(x),
{
    if x >= 0 {
        assert(x * r >= 0 && 0 <= (x * r) / 1000 && (x > 0 ==> (x * r) / 1000 < x)
            && (x * r) / 1000 <= x) by (nonlinear_arith)
            requires
                0 <= x,
                0 < r < 1000;
    } else {
        assert(x * r < 0 && iabs(x * r) == (-x) * r && 0 <= ((-x) * r) / 1000
            && ((-x) * r) / 1000 < -x) by (nonlinear_arith)
            requires
                x < 0,
                0 < r < 1000;
    }
}

/// Dampened motion converges: one step of `move_dampen(v, r)` with a
/// retention strictly between zero and one leaves each velocity component no
/// larger in magnitude, strictly smaller when it was nonzero; the squared
/// speed therefore never grows. Repeated steps drive the velocity to rest.
pub proof fn lemma_dampen_motion(v: Cpx, r: i64, p0: Cpx, dt: i64)
    requires
        cpx_in_fx(v),
        cpx_in_fx(p0),
        in_fx(dt as int),
        0 < r < FX_ONE,
    ensures
        ({
            let v1 = motion_step_spec(move_dampen_spec(v, r), p0, dt as int).0.velocity;
            iabs(v1.re as int) <= iabs(v.re as int)
                && iabs(v1.im as int) <= iabs(v.im as int)
                && (v.re != 0 ==> iabs(v1.re as int) < iabs(v.re as int))
                && (v.im != 0 ==> iabs(v1.im as int) < iabs(v.im as int))
                && v1.re as int * v1.re as int + v1.im as int * v1.im as int
                    <= v.re as int * v.re as int + v.im as int * v.im as int
        }),
{
    lemma_damp_component(v.re as int, r as int);
    lemma_damp_component(v.im as int, r as int);
    lemma_fx_mul_zero_left(dt as int);
    let v1 = motion_step_spec(move_dampen_spec(v, r), p0, dt as int).0.velocity;
    assert(v1.re as int == fx_mul_spec(v.re as int, r as int));
    assert(v1.im as int == fx_mul_spec(v.im as int, r as int));
    assert(v1.re as int * v1.re as int + v1.im as int * v1.im as int
        <= v.re as int * v.re as int + v.im as int * v.im as int) by (nonlinear_arith)
        requires
            iabs(v1.re as int) <= iabs(v.re as int),
            iabs(v1.im as int) <= iabs(v.im as int);
}

/// Halving a component by the five-hundred scale stays within half a unit.
proof fn lemma_half_component(x: int)
    requires
        in_fx(x),
    ensures
        -1 <= 2 * fx_mul_spec(x, 500) - x <= 1,
        iabs(fx_mul_spec(x, 500)) <= 1_000_000_000,
{
    if x >= 0 {
        assert(0 <= (x * 500) / 1000 && -1 <= 2 * ((x * 500) / 1000) - x <= 1
            && (x * 500) / 1000 <= 1_000_000_000) by (nonlinear_arith)
            requires
                0 <= x <= 2_000_000_000;
    } else {
        assert(0 <= ((-x) * 500) / 1000 && -1 <= 2 * (-(((-x) * 500) / 1000)) - x <= 1
            && ((-x) * 500) / 1000 <= 1_000_000_000) by (nonlinear_arith)
            requires
                -2_000_000_000 <= x < 0;
    }
}

/// Asymptotic half-life: with a half-life of one second, the retention is
/// exactly one half, and a single one-second step from `v0` puts each
/// velocity component within two fixed-point units of the midpoint between
/// `v0` and `v1` — the discrete form of the half-life law.
pub proof fn lemma_halflife_midpoint(v0: Cpx, v1: Cpx, p0: Cpx)
    requires
        cpx_in_fx(v0),
        cpx_in_fx(v1),
        cpx_in_fx(p0),
    ensures
        retention_halflife_spec(FX_ONE as int) == 500,
        ({
            let mp = MoveParams {
                velocity: v0,
                acceleration: cmul_spec(
                    v1,
                    csub_spec(Cpx { re: FX_ONE, im: 0 }, Cpx { re: 500, im: 0 }),
                ),
                retention: 500,
                attraction: Cpx { re: 0, im: 0 },
                attraction_point: Cpx { re: 0, im: 0 },
                attraction_exponent: FX_ONE,
            };
            let w = motion_step_spec(mp, p0, FX_ONE as int).0.velocity;
            -2 <= 2 * w.re as int - (v0.re as int + v1.re as int) <= 2
                && -2 <= 2 * w.im as int - (v0.im as int + v1.im as int) <= 2
        }),
{
    assert(2_000_000int / 4_000int == 500) by (nonlinear_arith);
    lemma_half_component(v0.re as int);
    lemma_half_component(v0.im as int);
    lemma_half_component(v1.re as int);
    lemma_half_component(v1.im as int);
    lemma_fx_mul_zero_left(v1.re as int);
    lemma_fx_mul_zero_left(v1.im as int);
    let acc = cmul_spec(v1, csub_spec(Cpx { re: FX_ONE, im: 0 }, Cpx { re: 500, im: 0 }));
    assert(acc.re as int == fx_mul_spec(v1.re as int, 500));
    assert(acc.im as int == fx_mul_spec(v1.im as int, 500));
    lemma_fx_mul_one(acc.re as int);
    lemma_fx_mul_one(acc.im as int);
}

} // verus!


