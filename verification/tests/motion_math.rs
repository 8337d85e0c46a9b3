//! Kinematics, fixed-point and trigonometry behaviour.

use danmaku::cpx::Cpx;
use danmaku::fx::{clamp_fx, fx_add, fx_div, fx_mul, fx_sub, FX_LIM, FX_ONE};
use danmaku::motion::{powf_fx, retention_for_halflife, sqrt_fx, MoveParams};
use danmaku::rng::Rng;
use danmaku::timer::{Cooldown, Timer};
use danmaku::trig::{cos_deg, dir_deg, isqrt, norm_deg, sin_deg, DEG_HALF, DEG_QUARTER, DEG_TURN};

#[test]
fn fixed_point_arithmetic() {
    assert_eq!(fx_add(1_500, 2_500), 4_000);
    assert_eq!(fx_sub(1_500, 2_500), -1_000);
    // 1.5 * 2.5 == 3.75
    assert_eq!(fx_mul(1_500, 2_500), 3_750);
    // 3.0 / 2.0 == 1.5
    assert_eq!(fx_div(3_000, 2_000), 1_500);
    // Results clamp instead of overflowing.
    assert_eq!(fx_mul(FX_LIM, FX_LIM), FX_LIM);
    assert_eq!(clamp_fx(i64::MAX), FX_LIM);
    assert_eq!(clamp_fx(i64::MIN), -FX_LIM);
    // Multiplication truncates toward zero on either sign.
    assert_eq!(fx_mul(-1_500, 333), -499);
    assert_eq!(fx_mul(1_500, 333), 499);
}

#[test]
fn integer_square_root() {
    assert_eq!(isqrt(0), 0);
    assert_eq!(isqrt(1), 1);
    assert_eq!(isqrt(24), 4);
    assert_eq!(isqrt(25), 5);
    assert_eq!(isqrt(26), 5);
    // One fixed-point unit squared: sqrt(4.0) == 2.0.
    assert_eq!(sqrt_fx(4_000), 2_000);
}

#[test]
fn angles_normalize_and_quarter_turns_are_exact() {
    assert_eq!(norm_deg(0), 0);
    assert_eq!(norm_deg(DEG_TURN), 0);
    assert_eq!(norm_deg(-90_000), 270_000);
    assert_eq!(norm_deg(730_000), 10_000);
    assert_eq!(sin_deg(0), 0);
    assert_eq!(sin_deg(DEG_QUARTER), FX_ONE);
    assert_eq!(sin_deg(DEG_HALF), 0);
    assert_eq!(sin_deg(DEG_HALF + DEG_QUARTER), -FX_ONE);
    assert_eq!(cos_deg(0), FX_ONE);
    assert_eq!(cos_deg(DEG_QUARTER), 0);
    assert_eq!(cos_deg(DEG_HALF), -FX_ONE);
    assert_eq!(cos_deg(DEG_HALF + DEG_QUARTER), 0);
    let d = dir_deg(0);
    assert_eq!((d.re, d.im), (FX_ONE, 0));
}

#[test]
fn linear_motion_advances_position_and_keeps_velocity() {
    // One second at (1.0, 2.0) pixels per second from (3.0, 4.0).
    let mut mp = MoveParams::move_linear(Cpx::new(1_000, 2_000));
    let mut pos = Cpx::new(3_000, 4_000);
    let before = mp.update(&mut pos, FX_ONE);
    assert_eq!((pos.re, pos.im), (4_000, 6_000));
    assert_eq!((mp.velocity.re, mp.velocity.im), (1_000, 2_000));
    assert_eq!((before.re, before.im), (1_000, 2_000));
    // Half a second moves half as far.
    let mut pos2 = Cpx::new(0, 0);
    mp.update(&mut pos2, 500);
    assert_eq!((pos2.re, pos2.im), (500, 1_000));
}

#[test]
fn dampened_motion_decays_toward_rest() {
    let mut mp = MoveParams::move_dampen(Cpx::new(10_000, -8_000), 500);
    let mut pos = Cpx::new(0, 0);
    mp.update(&mut pos, 100);
    assert_eq!((mp.velocity.re, mp.velocity.im), (5_000, -4_000));
    let mut last = 5_000i64;
    for _ in 0..30 {
        mp.update(&mut pos, 100);
        assert!(mp.velocity.re.abs() <= last.abs());
        last = mp.velocity.re;
    }
    for _ in 0..30 {
        mp.update(&mut pos, 100);
    }
    assert_eq!((mp.velocity.re, mp.velocity.im), (0, 0));
}

#[test]
fn halflife_of_one_second_reaches_the_midpoint() {
    assert_eq!(retention_for_halflife(FX_ONE), 500);
    let mut mp = MoveParams::move_asymptotic_halflife(
        Cpx::new(10_000, 0),
        Cpx::new(20_000, 0),
        FX_ONE,
    );
    assert_eq!(mp.retention, 500);
    let mut pos = Cpx::new(0, 0);
    mp.update(&mut pos, FX_ONE);
    // Exactly halfway between the start and target velocities.
    assert_eq!(mp.velocity.re, 15_000);
    assert_eq!(mp.velocity.im, 0);
}

#[test]
fn asymptotic_motion_relaxes_toward_target_velocity() {
    let mut mp = MoveParams::move_asymptotic(
        Cpx::new(0, 0),
        Cpx::new(10_000, 0),
        Cpx::new(800, 0),
    );
    let mut pos = Cpx::new(0, 0);
    let mut prev = 0i64;
    for _ in 0..40 {
        mp.update(&mut pos, FX_ONE);
        assert!(mp.velocity.re >= prev);
        assert!(mp.velocity.re <= 10_000);
        prev = mp.velocity.re;
    }
    assert!(mp.velocity.re > 9_000);
}

#[test]
fn homing_motion_pulls_toward_the_target() {
    let target = Cpx::new(100_000, 0);
    let mut mp = MoveParams::move_towards(Cpx::new(0, 0), target, Cpx::new(1_000, 1_000));
    let mut pos = Cpx::new(0, 0);
    for _ in 0..10 {
        mp.update(&mut pos, 100);
    }
    assert!(pos.re > 0);
    assert!(mp.velocity.re > 0);
}

#[test]
fn power_law_helpers_behave() {
    // A whole-power exponent of 1.5 squares the half-step base twice.
    assert_eq!(powf_fx(4_000, 1_500), 4_000);
    assert_eq!(retention_for_halflife(0), 0);
    assert!(retention_for_halflife(10_000) > 900);
    assert!(retention_for_halflife(10_000) < FX_ONE);
}

#[test]
fn timers_complete_and_rearm() {
    let mut t = Timer::new(1_000, true);
    assert!(!t.done());
    t.tick(600);
    assert!(!t.completed());
    t.tick(600);
    assert!(t.done());
    assert!(t.completed());
    // The repeating timer rearmed itself.
    assert!(!t.done());
    let mut once = Timer::new(500, false);
    once.tick(700);
    assert!(once.completed());
    // A one-shot stays done.
    assert!(once.completed());
    let c = Cooldown::new(2_000);
    assert_eq!(c.0.period, 2_000);
    assert!(c.0.repeating);
}

#[test]
fn rng_is_deterministic_and_in_range() {
    let mut a = Rng::new(12345);
    let mut b = Rng::new(12345);
    for _ in 0..100 {
        let x = a.range(1, 100);
        let y = b.range(1, 100);
        assert_eq!(x, y);
        assert!((1..100).contains(&x));
    }
    let mut c = Rng::new(54321);
    let mut diff = false;
    for _ in 0..10 {
        if c.range(1, 100) != a.range(1, 100) {
            diff = true;
        }
    }
    assert!(diff);
}
