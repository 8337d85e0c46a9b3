//! The boss attack-pattern engine.
//!
//! An attack is a tree: aimed fans (`AtPlayer`), radial rings (`Circle`) and
//! compositions (`Multiple`). Each leaf carries its own cooldown, so the
//! leaves fire independently; a `Circle` also carries a persistent rotation
//! that advances on every volley, producing spirals. A boss runs an ordered
//! queue of `BossMove` phases, each with a timeout and its own hit-point
//! budget.

use vstd::prelude::*;
use crate::components::{CircleHitbox, hitbox_in_fx, Hitpoint, hitpoint_in_fx, Sprite, Transform2D, transform_in_fx};
use crate::cpx::{cadd_spec, cmul_spec, cpx_in_fx, cscale_spec, Cpx};
use crate::fx::{fx_add_spec, in_fx, FX_ONE};
use crate::motion::{move_linear_spec, mp_in_fx, MoveParams};
use crate::rng::{rng_next_spec, rng_sample_spec, rng_wf, Rng};
use crate::timer::{Cooldown, Timer, timer_done, timer_in_fx};
use crate::trig::{angle_of, angle_of_spec, cos_spec, dir_deg, dir_spec, dir_to, dir_to_spec, half_sin_spec, norm_deg, sin_spec, DEG_HALF, DEG_QUARTER, DEG_TURN};

verus! {

/// Sprite and hitbox a pattern stamps on every bullet it emits.
#[derive(Clone, Copy, Debug)]
pub struct BulletSetup(pub Sprite, pub CircleHitbox);

/// The setup's hitbox is in the fixed-point range.
pub open spec fn setup_in_fx(s: BulletSetup) -> bool {
    hitbox_in_fx(s.1)
}

/// One node of an attack pattern.
#[derive(Debug)]
pub enum AttackMove {
    /// A fan of `num` bullets aimed at the player, spread apart by a fixed
    /// angle.
    AtPlayer {
        num: u16,
        speed: i64,
        spread: i64,
        total_shoot: u16,
        cooldown: Cooldown,
        setup: BulletSetup,
    },
    /// A ring of `sides` bullets, rotated further at every volley.
    Circle {
        sides: u16,
        speed: i64,
        rotation_per_fire: i64,
        rotation: i64,
        cooldown: Cooldown,
        setup: BulletSetup,
    },
    /// Several patterns firing simultaneously.
    Multiple(Vec<AttackMove>),
}

/// Every scalar in the tree is in the fixed-point range, and every rotation
/// is a normalized angle.
pub open spec fn attack_in_fx(a: AttackMove) -> bool
    decreases a,
{
    match a {
        AttackMove::AtPlayer { speed, spread, cooldown, setup, .. } => {
            in_fx(speed as int) && in_fx(spread as int) && timer_in_fx(cooldown.0)
                && setup_in_fx(setup)
        },
        AttackMove::Circle { speed, rotation_per_fire, rotation, cooldown, setup, .. } => {
            in_fx(speed as int) && in_fx(rotation_per_fire as int)
                && 0 <= rotation < crate::trig::DEG_TURN && timer_in_fx(cooldown.0)
                && setup_in_fx(setup)
        },
        AttackMove::Multiple(moves) => {
            forall|i: int| 0 <= i < moves@.len() ==> attack_in_fx(#[trigger] moves@[i])
        },
    }
}

/// A timer advanced by `d` seconds.
pub open spec fn ticked_timer(t: Timer, d: int) -> Timer {
    Timer { elapsed: fx_add_spec(t.elapsed as int, d) as i64, ..t }
}

/// `r` is `a` with every cooldown in the tree advanced by `d` seconds and
/// all else as it stands.
pub open spec fn tick_attack_rel(a: AttackMove, d: int, r: AttackMove) -> bool
    decreases a,
{
    match a {
        AttackMove::AtPlayer { num, speed, spread, total_shoot, cooldown, setup } => {
            r matches AttackMove::AtPlayer {
                num: n2, speed: s2, spread: p2, total_shoot: t2, cooldown: c2, setup: u2 }
                && n2 == num && s2 == speed && p2 == spread && t2 == total_shoot
                && c2.0 == ticked_timer(cooldown.0, d) && u2 == setup
        },
        AttackMove::Circle { sides, speed, rotation_per_fire, rotation, cooldown, setup } => {
            r matches AttackMove::Circle {
                sides: n2, speed: s2, rotation_per_fire: f2, rotation: o2, cooldown: c2,
                setup: u2 }
                && n2 == sides && s2 == speed && f2 == rotation_per_fire && o2 == rotation
                && c2.0 == ticked_timer(cooldown.0, d) && u2 == setup
        },
        AttackMove::Multiple(moves) => {
            r matches AttackMove::Multiple(out) && out@.len() == moves@.len()
                && forall|i: int|
                    0 <= i < moves@.len() ==> tick_attack_rel(moves@[i], d, #[trigger] out@[i])
        },
    }
}

/// Advance every cooldown in an attack tree by `d` seconds, leaving all else
/// as it stands.
pub fn update_cooldown_attack(attack: &AttackMove, d: i64) -> (r: AttackMove)
    requires
        attack_in_fx(*attack),
        in_fx(d as int),
    ensures
        tick_attack_rel(*attack, d as int, r),
        attack_in_fx(r),
    decreases *attack,
{
    match attack {
        AttackMove::AtPlayer { num, speed, spread, total_shoot, cooldown, setup } => {
            let mut c = *cooldown;
            c.0.tick(d);
            AttackMove::AtPlayer {
                num: *num,
                speed: *speed,
                spread: *spread,
                total_shoot: *total_shoot,
                cooldown: c,
                setup: *setup,
            }
        },
        AttackMove::Circle { sides, speed, rotation_per_fire, rotation, cooldown, setup } => {
            let mut c = *cooldown;
            c.0.tick(d);
            AttackMove::Circle {
                sides: *sides,
                speed: *speed,
                rotation_per_fire: *rotation_per_fire,
                rotation: *rotation,
                cooldown: c,
                setup: *setup,
            }
        },
        AttackMove::Multiple(moves) => {
            let mut out: Vec<AttackMove> = Vec::new();
            let mut i: usize = 0;
            proof {
                assert(forall|j: int|
                    0 <= j < moves@.len() ==> attack_in_fx(#[trigger] moves@[j]));
            }
            while i < moves.len()
                invariant
                    0 <= i <= moves.len(),
                    out@.len() == i,
                    *attack == AttackMove::Multiple(*moves),
                    forall|j: int|
                        0 <= j < i ==> tick_attack_rel(moves@[j], d as int, #[trigger] out@[j]),
                    forall|j: int| 0 <= j < i ==> attack_in_fx(#[trigger] out@[j]),
                    forall|j: int| 0 <= j < moves@.len() ==> attack_in_fx(#[trigger] moves@[j]),
                    in_fx(d as int),
                decreases moves.len() - i,
            {
                proof {
                    assert(decreases_to!(*attack => attack->Multiple_0));
                    assert(attack->Multiple_0 == *moves);
                    assert(decreases_to!(*moves => moves@));
                    assert(decreases_to!(moves@ => moves@[i as int]));
                }
                out.push(update_cooldown_attack(&moves[i], d));
                i = i + 1;
            }
            AttackMove::Multiple(out)
        },
    }
}

/// One bullet to be spawned by the attack engine: the bundle an enemy
/// bullet entity starts from.
#[derive(Clone, Copy, Debug)]
pub struct SpawnBullet {
    pub transform: Transform2D,
    pub sprite: Sprite,
    pub movement: MoveParams,
    pub hitbox: CircleHitbox,
}

/// A bullet bundle's fields are in the fixed-point range.
pub open spec fn bullet_in_fx(b: SpawnBullet) -> bool {
    transform_in_fx(b.transform) && mp_in_fx(b.movement) && hitbox_in_fx(b.hitbox)
}

/// The timer of a consumed cooldown completion.
pub open spec fn consumed_timer(t: Timer) -> Timer {
    if timer_done(t) && t.repeating {
        Timer { elapsed: 0, ..t }
    } else {
        t
    }
}

/// Jitter drawn from one sample: a value of up to a hundredth of a pixel.
pub open spec fn jitter_spec(s: u64) -> int {
    (rng_sample_spec(s, 1, 100) as int * (FX_ONE as int)) / 10_000
}

/// The ring bullet with index `k`: aimed `k` of `sides` around the turn,
/// offset by the pattern's rotation.
pub open spec fn circle_bullet_spec(
    origin: Cpx,
    speed: i64,
    sides: u16,
    rotation: i64,
    setup: BulletSetup,
    k: int,
) -> SpawnBullet {
    let ang = ((k * (DEG_TURN as int)) / (sides as int) + rotation) % (DEG_TURN as int);
    SpawnBullet {
        transform: Transform2D {
            position: origin,
            scale: Cpx { re: FX_ONE, im: FX_ONE },
            rotation: ang as i64,
        },
        sprite: setup.0,
        movement: move_linear_spec(cscale_spec(dir_spec(ang), speed as int)),
        hitbox: setup.1,
    }
}

/// The aimed-fan bullet with index `k`, perturbed by the two drawn jitters:
/// the aim direction turned by `k - 1` spreads, scaled by the speed. The
/// sprite rotation is the jittered velocity's flight angle.
pub open spec fn fan_bullet_spec(
    origin: Cpx,
    target: Cpx,
    speed: i64,
    spread: i64,
    setup: BulletSetup,
    k: int,
    jx: int,
    jy: int,
) -> SpawnBullet {
    let ang = ((k - 1) * (spread as int % (DEG_TURN as int))) % (DEG_TURN as int);
    let vel = cadd_spec(
        cscale_spec(cmul_spec(dir_to_spec(origin, target), dir_spec(ang)), speed as int),
        Cpx { re: jx as i64, im: jy as i64 },
    );
    SpawnBullet {
        transform: Transform2D {
            position: origin,
            scale: Cpx { re: 50, im: 50 },
            rotation: angle_of_spec(vel) as i64,
        },
        sprite: setup.0,
        movement: move_linear_spec(vel),
        hitbox: setup.1,
    }
}

/// The single aimed bullet: straight at the target, its sprite rotated to
/// the flight angle.
pub open spec fn aimed_bullet_spec(
    origin: Cpx,
    target: Cpx,
    speed: i64,
    setup: BulletSetup,
) -> SpawnBullet {
    let vel = cscale_spec(dir_to_spec(origin, target), speed as int);
    SpawnBullet {
        transform: Transform2D {
            position: origin,
            scale: Cpx { re: FX_ONE, im: FX_ONE },
            rotation: angle_of_spec(vel) as i64,
        },
        sprite: setup.0,
        movement: move_linear_spec(vel),
        hitbox: setup.1,
    }
}

/// The generator state after the jitters of `n` fan bullets were drawn:
/// each bullet consumes two samples.
pub open spec fn fan_state_spec(n: int, s: u64) -> u64
    decreases n,
{
    if n <= 0 {
        s
    } else {
        rng_next_spec(rng_next_spec(fan_state_spec(n - 1, s)))
    }
}

/// The first `n` fan bullets, their jitters drawn in order from generator
/// state `s`.
pub open spec fn fan_seq_spec(
    origin: Cpx,
    target: Cpx,
    speed: i64,
    spread: i64,
    setup: BulletSetup,
    n: int,
    s: u64,
) -> Seq<SpawnBullet>
    decreases n,
{
    if n <= 0 {
        Seq::empty()
    } else {
        let sx = rng_next_spec(fan_state_spec(n - 1, s));
        let sy = rng_next_spec(sx);
        fan_seq_spec(origin, target, speed, spread, setup, n - 1, s).push(
            fan_bullet_spec(origin, target, speed, spread, setup, n - 1, jitter_spec(sx),
                jitter_spec(sy)),
        )
    }
}

/// `r` is the pattern `a` after one evaluation: ready cooldowns consumed,
/// ring rotations advanced, everything else as it stands.
pub open spec fn fire_tree_rel(a: AttackMove, r: AttackMove) -> bool
    decreases a,
{
    match a {
        AttackMove::AtPlayer { num, speed, spread, total_shoot, cooldown, setup } => {
            r matches AttackMove::AtPlayer {
                num: n2, speed: s2, spread: p2, total_shoot: t2, cooldown: c2, setup: u2 }
                && n2 == num && s2 == speed && p2 == spread && t2 == total_shoot
                && c2.0 == consumed_timer(cooldown.0) && u2 == setup
        },
        AttackMove::Circle { sides, speed, rotation_per_fire, rotation, cooldown, setup } => {
            r matches AttackMove::Circle {
                sides: n2, speed: s2, rotation_per_fire: f2, rotation: o2, cooldown: c2,
                setup: u2 }
                && n2 == sides && s2 == speed && f2 == rotation_per_fire
                && o2 == if timer_done(cooldown.0) {
                    (rotation + rotation_per_fire) % (DEG_TURN as int)
                } else {
                    rotation as int
                }
                && c2.0 == consumed_timer(cooldown.0) && u2 == setup
        },
        AttackMove::Multiple(moves) => {
            r matches AttackMove::Multiple(out) && out@.len() == moves@.len()
                && forall|i: int|
                    0 <= i < moves@.len() ==> fire_tree_rel(moves@[i], #[trigger] out@[i])
        },
    }
}

/// The generator state after evaluating a pattern: only a ready aimed fan
/// draws samples, two for each of its bullets.
pub open spec fn fire_state_spec(a: AttackMove, s: u64) -> u64
    decreases a,
{
    match a {
        AttackMove::AtPlayer { num, speed, spread, total_shoot, cooldown, setup } => {
            if timer_done(cooldown.0) && total_shoot != 0 && num > 1 {
                fan_state_spec(num as int, s)
            } else {
                s
            }
        },
        AttackMove::Circle { .. } => s,
        AttackMove::Multiple(moves) => fire_state_list_spec(moves@, s),
    }
}

/// The generator state threaded left to right through a list of patterns.
pub open spec fn fire_state_list_spec(ms: Seq<AttackMove>, s: u64) -> u64
    decreases ms,
{
    if ms.len() == 0 {
        s
    } else {
        fire_state_spec(ms[ms.len() - 1], fire_state_list_spec(ms.subrange(0, ms.len() - 1), s))
    }
}

/// The bullets one evaluation of a pattern emits, from generator state `s`:
/// nothing unless the cooldown has completed; a ready fan or ring emits its
/// whole volley.
pub open spec fn fire_bullets_spec(a: AttackMove, origin: Cpx, target: Cpx, s: u64) -> Seq<
    SpawnBullet>
    decreases a,
{
    match a {
        AttackMove::AtPlayer { num, speed, spread, total_shoot, cooldown, setup } => {
            if !timer_done(cooldown.0) || total_shoot == 0 {
                Seq::empty()
            } else if num > 1 {
                fan_seq_spec(origin, target, speed, spread, setup, num as int, s)
            } else {
                seq![aimed_bullet_spec(origin, target, speed, setup)]
            }
        },
        AttackMove::Circle { sides, speed, rotation_per_fire, rotation, cooldown, setup } => {
            if !timer_done(cooldown.0) {
                Seq::empty()
            } else {
                Seq::new(
                    sides as nat,
                    |k: int| circle_bullet_spec(origin, speed, sides, rotation, setup, k),
                )
            }
        },
        AttackMove::Multiple(moves) => fire_bullets_list_spec(moves@, origin, target, s),
    }
}

/// The bullets of a list of patterns, concatenated left to right, the
/// generator state threaded through.
pub open spec fn fire_bullets_list_spec(
    ms: Seq<AttackMove>,
    origin: Cpx,
    target: Cpx,
    s: u64,
) -> Seq<SpawnBullet>
    decreases ms,
{
    if ms.len() == 0 {
        Seq::empty()
    } else {
        fire_bullets_list_spec(ms.subrange(0, ms.len() - 1), origin, target, s)
            + fire_bullets_spec(ms[ms.len() - 1], origin, target,
                fire_state_list_spec(ms.subrange(0, ms.len() - 1), s))
    }
}

/// Evaluate an attack pattern: push the bullets the ready leaves emit onto
/// `out` and hand back the pattern with cooldowns consumed and rotations
/// advanced. The caller writes the result back over the stored pattern.
#[verifier::rlimit(100)]
pub fn fire_attack(
    attack: &AttackMove,
    origin: Cpx,
    target: Cpx,
    rng: &mut Rng,
    out: &mut Vec<SpawnBullet>,
) -> (r: AttackMove)
    requires
        attack_in_fx(*attack),
        cpx_in_fx(origin),
        cpx_in_fx(target),
        rng_wf(*old(rng)),
    ensures
        attack_in_fx(r),
        rng_wf(*final(rng)),
        final(out)@.len() >= old(out)@.len(),
        final(out)@.subrange(0, old(out)@.len() as int) =~= old(out)@,
        fire_tree_rel(*attack, r),
        final(rng).state == fire_state_spec(*attack, old(rng).state),
        final(out)@.subrange(old(out)@.len() as int, final(out)@.len() as int)
            =~= fire_bullets_spec(*attack, origin, target, old(rng).state),
        forall|j: int|
            old(out)@.len() <= j < final(out)@.len() ==> bullet_in_fx(#[trigger] final(out)@[j]),
    decreases *attack,
{
    match attack {
        AttackMove::AtPlayer { num, speed, spread, total_shoot, cooldown, setup } => {
            fire_at_player(*num, *speed, *spread, *total_shoot, *cooldown, *setup, origin,
                target, rng, out)
        },
        AttackMove::Circle { sides, speed, rotation_per_fire, rotation, cooldown, setup } => {
            fire_circle(*sides, *speed, *rotation_per_fire, *rotation, *cooldown, *setup,
                origin, target, rng, out)
        },
        AttackMove::Multiple(moves) => {
            let mut res: Vec<AttackMove> = Vec::new();
            let mut i: usize = 0;
            let ghost base = out@.len() as int;
            let ghost s_start = rng.state;
            proof {
                assert(forall|j: int|
                    0 <= j < moves@.len() ==> attack_in_fx(#[trigger] moves@[j]));
                assert(moves@.subrange(0, 0) =~= Seq::<AttackMove>::empty());
                assert(out@.subrange(base, out@.len() as int) =~= Seq::<SpawnBullet>::empty());
            }
            while i < moves.len()
                invariant
                    0 <= i <= moves.len(),
                    res@.len() == i,
                    *attack == AttackMove::Multiple(*moves),
                    forall|j: int| 0 <= j < moves@.len() ==> attack_in_fx(#[trigger] moves@[j]),
                    forall|j: int| 0 <= j < i ==> attack_in_fx(#[trigger] res@[j]),
                    forall|j: int| 0 <= j < i ==> fire_tree_rel(moves@[j], #[trigger] res@[j]),
                    cpx_in_fx(origin),
                    cpx_in_fx(target),
                    rng_wf(*rng),
                    out@.len() >= base,
                    base == old(out)@.len(),
                    out@.subrange(0, base) =~= old(out)@,
                    rng.state == fire_state_list_spec(moves@.subrange(0, i as int), s_start),
                    out@.subrange(base, out@.len() as int) =~= fire_bullets_list_spec(
                        moves@.subrange(0, i as int), origin, target, s_start),
                    forall|j: int| base <= j < out@.len() ==> bullet_in_fx(#[trigger] out@[j]),
                decreases moves.len() - i,
            {
                proof {
                    assert(decreases_to!(*attack => attack->Multiple_0));
                    assert(attack->Multiple_0 == *moves);
                    assert(decreases_to!(*moves => moves@));
                    assert(decreases_to!(moves@ => moves@[i as int]));
                }
                let ghost s_mid = rng.state;
                let ghost out_mid = out@;
                let evolved = fire_attack(&moves[i], origin, target, rng, out);
                res.push(evolved);
                proof {
                    let cur = moves@.subrange(0, i as int + 1);
                    let prefix = moves@.subrange(0, i as int);
                    assert(cur.subrange(0, cur.len() - 1) =~= prefix);
                    assert(cur[cur.len() - 1] == moves@[i as int]);
                    assert(fire_state_list_spec(cur, s_start)
                        == fire_state_spec(moves@[i as int], s_mid));
                    let bs_tot = out@.subrange(base, out@.len() as int);
                    let n_w = out_mid.len() as int - base;
                    assert(out_mid =~= out@.subrange(0, out_mid.len() as int));
                    assert forall|j: int| 0 <= j < n_w implies bs_tot[j] == #[trigger] out_mid[
                        base + j] by {
                        assert(out_mid[base + j]
                            == out@.subrange(0, out_mid.len() as int)[base + j]);
                    };
                    assert(bs_tot.subrange(0, n_w)
                        =~= out_mid.subrange(base, out_mid.len() as int));
                    assert(bs_tot.subrange(n_w, bs_tot.len() as int)
                        =~= out@.subrange(out_mid.len() as int, out@.len() as int));
                    assert(bs_tot =~= bs_tot.subrange(0, n_w)
                        + bs_tot.subrange(n_w, bs_tot.len() as int));
                    assert(bs_tot =~= fire_bullets_list_spec(prefix, origin, target, s_start)
                        + fire_bullets_spec(moves@[i as int], origin, target, s_mid));
                    assert(bs_tot =~= fire_bullets_list_spec(cur, origin, target, s_start));
                    assert forall|j: int| base <= j < out@.len() implies bullet_in_fx(
                        #[trigger] out@[j]) by {
                        if j < out_mid.len() {
                            assert(out@[j] == out@.subrange(0, out_mid.len() as int)[j]);
                            assert(out@[j] == out_mid[j]);
                        }
                    };
                }
                i = i + 1;
            }
            proof {
                assert(moves@.subrange(0, moves@.len() as int) =~= moves@);
            }
            AttackMove::Multiple(res)
        },
    }
}

/// Widen a side count for division.
fn sides_i64(s: u16) -> (r: i64)
    ensures
        r == s as i64,
{
    s as i64
}

/// Emit a fan of `num` aimed bullets, each jittered by two generator draws.
fn fire_fan(
    origin: Cpx,
    target: Cpx,
    speed: i64,
    spread: i64,
    setup: BulletSetup,
    num: u16,
    rng: &mut Rng,
    out: &mut Vec<SpawnBullet>,
)
    requires
        cpx_in_fx(origin),
        cpx_in_fx(target),
        in_fx(speed as int),
        in_fx(spread as int),
        hitbox_in_fx(setup.1),
        rng_wf(*old(rng)),
    ensures
        rng_wf(*final(rng)),
        final(out)@.len() == old(out)@.len() + num as int,
        final(out)@.subrange(0, old(out)@.len() as int) =~= old(out)@,
        final(out)@.subrange(old(out)@.len() as int, final(out)@.len() as int)
            =~= fan_seq_spec(origin, target, speed, spread, setup, num as int,
                old(rng).state),
        final(rng).state == fan_state_spec(num as int, old(rng).state),
        forall|j: int|
            old(out)@.len() <= j < final(out)@.len() ==> bullet_in_fx(#[trigger] final(out)@[j]),
{
    let aim = dir_to(&origin, &target);
    let sp_norm = norm_deg(spread);
    let ghost base = out@.len() as int;
    let ghost s_start = rng.state;
    let mut i: u16 = 0;
    while i < num
        invariant
            0 <= i <= num,
            rng_wf(*rng),
            in_fx(speed as int),
            in_fx(spread as int),
            hitbox_in_fx(setup.1),
            cpx_in_fx(origin),
            cpx_in_fx(target),
            aim == dir_to_spec(origin, target),
            cpx_in_fx(aim),
            -(FX_ONE as int) <= aim.re <= FX_ONE as int,
            -(FX_ONE as int) <= aim.im <= FX_ONE as int,
            sp_norm == spread as int % (DEG_TURN as int),
            0 <= sp_norm < DEG_TURN,
            out@.len() == base + i as int,
            base == old(out)@.len(),
            out@.subrange(0, base) =~= old(out)@,
            out@.subrange(base, out@.len() as int)
                =~= fan_seq_spec(origin, target, speed, spread, setup, i as int, s_start),
            rng.state == fan_state_spec(i as int, s_start),
            forall|j: int| base <= j < out@.len() ==> bullet_in_fx(#[trigger] out@[j]),
        decreases num - i,
    {
        let vx = rng.range(1, 100);
        let jx = (vx * FX_ONE) / 10_000;
        let ghost sx = rng.state;
        let vy = rng.range(1, 100);
        let jy = (vy * FX_ONE) / 10_000;
        let ghost sy = rng.state;
        let rel: i64 = i as i64 - 1;
        proof {
            let relg = rel as int;
            let spg = sp_norm as int;
            assert(relg * spg >= -360_000 && relg * spg <= 23_600_000_000)
                by (nonlinear_arith)
                requires
                    -1 <= relg,
                    relg <= 65535,
                    0 <= spg,
                    spg < 360_000;
        }
        let ang = norm_deg(rel * sp_norm);
        let dir = dir_deg(ang);
        let vel = aim.times(&dir).scale(speed).plus(&Cpx::new(jx, jy));
        let rot = angle_of(&vel);
        let b = SpawnBullet {
            transform: Transform2D { position: origin, scale: Cpx::new(50, 50), rotation: rot },
            sprite: setup.0,
            movement: MoveParams::move_linear(vel),
            hitbox: setup.1,
        };
        out.push(b);
        proof {
            assert(jx as int == jitter_spec(sx));
            assert(jy as int == jitter_spec(sy));
            assert(ang as int
                == ((i as int - 1) * (spread as int % (DEG_TURN as int)))
                    % (DEG_TURN as int));
            assert(b == fan_bullet_spec(origin, target, speed, spread, setup, i as int,
                jx as int, jy as int));
            assert(out@.subrange(base, out@.len() as int)
                =~= out@.subrange(base, out@.len() as int - 1).push(b));
            assert(out@.subrange(0, base) =~= old(out)@);
        }
        i = i + 1;
    }
}

/// Emit one ring volley: `sides` bullets evenly spaced around the turn,
/// offset by the pattern's current rotation.
fn fire_ring(
    origin: Cpx,
    speed: i64,
    sides: u16,
    rotation: i64,
    setup: BulletSetup,
    out: &mut Vec<SpawnBullet>,
)
    requires
        cpx_in_fx(origin),
        in_fx(speed as int),
        0 <= rotation < DEG_TURN,
        hitbox_in_fx(setup.1),
    ensures
        final(out)@.len() == old(out)@.len() + sides as int,
        final(out)@.subrange(0, old(out)@.len() as int) =~= old(out)@,
        final(out)@.subrange(old(out)@.len() as int, final(out)@.len() as int) =~= Seq::new(
            sides as nat,
            |k: int| circle_bullet_spec(origin, speed, sides, rotation, setup, k),
        ),
        forall|j: int|
            old(out)@.len() <= j < final(out)@.len() ==> bullet_in_fx(#[trigger] final(out)@[j]),
{
    let ghost base = out@.len() as int;
    let mut k: u16 = 0;
    while k < sides
        invariant
            0 <= k <= sides,
            in_fx(speed as int),
            0 <= rotation < DEG_TURN,
            hitbox_in_fx(setup.1),
            cpx_in_fx(origin),
            out@.len() == base + k as int,
            base == old(out)@.len(),
            out@.subrange(0, base) =~= old(out)@,
            forall|j: int|
                base <= j < out@.len() ==> out@[j] == circle_bullet_spec(origin, speed, sides,
                    rotation, setup, j - base),
            forall|j: int| base <= j < out@.len() ==> bullet_in_fx(#[trigger] out@[j]),
        decreases sides - k,
    {
        let bdeg: i64 = (k as i64 * DEG_TURN) / (sides_i64(sides));
        proof {
            assert(0 <= (k as int * (DEG_TURN as int)) / (sides as int)
                < DEG_TURN as int) by (nonlinear_arith)
                requires
                    0 <= k < sides,
                    0 < sides <= 65535;
        }
        let ang = norm_deg(bdeg + rotation);
        let dir = dir_deg(ang);
        let vel = dir.scale(speed);
        let b = SpawnBullet {
            transform: Transform2D {
                position: origin,
                scale: Cpx::new(FX_ONE, FX_ONE),
                rotation: ang,
            },
            sprite: setup.0,
            movement: MoveParams::move_linear(vel),
            hitbox: setup.1,
        };
        out.push(b);
        proof {
            assert(b == circle_bullet_spec(origin, speed, sides, rotation, setup, k as int));
            assert(out@.subrange(0, base) =~= old(out)@);
        }
        k = k + 1;
    }
    proof {
        assert(out@.subrange(base, out@.len() as int) =~= Seq::new(
            sides as nat,
            |j: int| circle_bullet_spec(origin, speed, sides, rotation, setup, j),
        ));
    }
}

/// Evaluate one aimed-fan leaf; see `fire_attack`.
#[verifier::rlimit(100)]
fn fire_at_player(
    num: u16,
    speed: i64,
    spread: i64,
    total_shoot: u16,
    cooldown: Cooldown,
    setup: BulletSetup,
    origin: Cpx,
    target: Cpx,
    rng: &mut Rng,
    out: &mut Vec<SpawnBullet>,
) -> (r: AttackMove)
    requires
        in_fx(speed as int),
        in_fx(spread as int),
        timer_in_fx(cooldown.0),
        hitbox_in_fx(setup.1),
        cpx_in_fx(origin),
        cpx_in_fx(target),
        rng_wf(*old(rng)),
    ensures
        ({
            let a = AttackMove::AtPlayer { num, speed, spread, total_shoot, cooldown, setup };
            &&& attack_in_fx(r)
            &&& rng_wf(*final(rng))
            &&& final(out)@.len() >= old(out)@.len()
            &&& final(out)@.subrange(0, old(out)@.len() as int) =~= old(out)@
            &&& fire_tree_rel(a, r)
            &&& final(rng).state == fire_state_spec(a, old(rng).state)
            &&& final(out)@.subrange(old(out)@.len() as int, final(out)@.len() as int)
                =~= fire_bullets_spec(a, origin, target, old(rng).state)
            &&& forall|j: int|
                old(out)@.len() <= j < final(out)@.len() ==> bullet_in_fx(
                    #[trigger] final(out)@[j])
        }),
{
    let mut c = cooldown;
    if !c.0.completed() {
        proof {
            assert(out@.subrange(old(out)@.len() as int, out@.len() as int)
                =~= Seq::<SpawnBullet>::empty());
            assert(out@.subrange(0, old(out)@.len() as int) =~= out@);
        }
        return AttackMove::AtPlayer { num, speed, spread, total_shoot, cooldown: c, setup };
    }
    let evolved = AttackMove::AtPlayer { num, speed, spread, total_shoot, cooldown: c, setup };
    if total_shoot == 0 {
        proof {
            assert(out@.subrange(old(out)@.len() as int, out@.len() as int)
                =~= Seq::<SpawnBullet>::empty());
            assert(out@.subrange(0, old(out)@.len() as int) =~= out@);
        }
        return evolved;
    }
    if num > 1 {
        fire_fan(origin, target, speed, spread, setup, num, rng, out);
        return evolved;
    }
    fire_single(origin, target, speed, setup, out);
    evolved
}

/// Emit the single straight-at-the-target bullet of a one-shot fan.
fn fire_single(
    origin: Cpx,
    target: Cpx,
    speed: i64,
    setup: BulletSetup,
    out: &mut Vec<SpawnBullet>,
)
    requires
        cpx_in_fx(origin),
        cpx_in_fx(target),
        in_fx(speed as int),
        hitbox_in_fx(setup.1),
    ensures
        final(out)@.len() == old(out)@.len() + 1,
        final(out)@.subrange(0, old(out)@.len() as int) =~= old(out)@,
        final(out)@.subrange(old(out)@.len() as int, final(out)@.len() as int)
            =~= seq![aimed_bullet_spec(origin, target, speed, setup)],
        forall|j: int|
            old(out)@.len() <= j < final(out)@.len() ==> bullet_in_fx(#[trigger] final(out)@[j]),
{
    let aim = dir_to(&origin, &target);
    let vel = aim.scale(speed);
    let rot = angle_of(&vel);
    let b = SpawnBullet {
        transform: Transform2D {
            position: origin,
            scale: Cpx::new(FX_ONE, FX_ONE),
            rotation: rot,
        },
        sprite: setup.0,
        movement: MoveParams::move_linear(vel),
        hitbox: setup.1,
    };
    out.push(b);
    proof {
        assert(out@.subrange(old(out)@.len() as int, out@.len() as int)
            =~= seq![aimed_bullet_spec(origin, target, speed, setup)]);
        assert(out@.subrange(0, old(out)@.len() as int) =~= old(out)@);
    }
}

/// Evaluate one ring leaf; see `fire_attack`. The target plays no part in a
/// ring, but keeps the contract in the same shape as the fan's.
#[verifier::rlimit(100)]
fn fire_circle(
    sides: u16,
    speed: i64,
    rotation_per_fire: i64,
    rotation: i64,
    cooldown: Cooldown,
    setup: BulletSetup,
    origin: Cpx,
    target: Cpx,
    rng: &mut Rng,
    out: &mut Vec<SpawnBullet>,
) -> (r: AttackMove)
    requires
        in_fx(speed as int),
        in_fx(rotation_per_fire as int),
        0 <= rotation < DEG_TURN,
        timer_in_fx(cooldown.0),
        hitbox_in_fx(setup.1),
        cpx_in_fx(origin),
        rng_wf(*old(rng)),
    ensures
        ({
            let a = AttackMove::Circle {
                sides,
                speed,
                rotation_per_fire,
                rotation,
                cooldown,
                setup,
            };
            &&& attack_in_fx(r)
            &&& rng_wf(*final(rng))
            &&& final(out)@.len() >= old(out)@.len()
            &&& final(out)@.subrange(0, old(out)@.len() as int) =~= old(out)@
            &&& fire_tree_rel(a, r)
            &&& final(rng).state == fire_state_spec(a, old(rng).state)
            &&& final(out)@.subrange(old(out)@.len() as int, final(out)@.len() as int)
                =~= fire_bullets_spec(a, origin, target, old(rng).state)
            &&& forall|j: int|
                old(out)@.len() <= j < final(out)@.len() ==> bullet_in_fx(
                    #[trigger] final(out)@[j])
        }),
{
    let mut c = cooldown;
    if !c.0.completed() {
        proof {
            assert(out@.subrange(old(out)@.len() as int, out@.len() as int)
                =~= Seq::<SpawnBullet>::empty());
            assert(out@.subrange(0, old(out)@.len() as int) =~= out@);
        }
        return AttackMove::Circle {
            sides,
            speed,
            rotation_per_fire,
            rotation,
            cooldown: c,
            setup,
        };
    }
    fire_ring(origin, speed, sides, rotation, setup, out);
    let rot2 = norm_deg(rotation + rotation_per_fire);
    AttackMove::Circle {
        sides,
        speed,
        rotation_per_fire,
        rotation: rot2,
        cooldown: c,
        setup,
    }
}

/// One phase of a boss's choreography: a plain pattern or a named spell
/// card, each with its own timeout and hit-point budget.
#[derive(Debug)]
pub enum BossMove {
    NonSpells { timeout: Timer, hp: Hitpoint, attack: AttackMove },
    Spells { name: &'static str, timeout: Timer, hp: Hitpoint, attack: AttackMove },
}

/// The phase's timeout timer.
pub open spec fn bm_timeout(m: BossMove) -> Timer {
    match m {
        BossMove::NonSpells { timeout, .. } => timeout,
        BossMove::Spells { timeout, .. } => timeout,
    }
}

/// The phase's own hit-point budget.
pub open spec fn bm_hp(m: BossMove) -> Hitpoint {
    match m {
        BossMove::NonSpells { hp, .. } => hp,
        BossMove::Spells { hp, .. } => hp,
    }
}

/// The phase's attack pattern.
pub open spec fn bm_attack(m: BossMove) -> AttackMove {
    match m {
        BossMove::NonSpells { attack, .. } => attack,
        BossMove::Spells { attack, .. } => attack,
    }
}

/// Two phases are the same kind with the same name.
pub open spec fn bm_same_kind(a: BossMove, b: BossMove) -> bool {
    match a {
        BossMove::NonSpells { .. } => b is NonSpells,
        BossMove::Spells { name, .. } => b matches BossMove::Spells { name: n2, .. }
            && n2 == name,
    }
}

/// A phase's fields are in the fixed-point range.
pub open spec fn bossmove_in_fx(m: BossMove) -> bool {
    timer_in_fx(bm_timeout(m)) && hitpoint_in_fx(bm_hp(m)) && attack_in_fx(bm_attack(m))
}

impl BossMove {
    /// Advance the timeout and every cooldown in the phase's attack tree by
    /// `d` seconds.
    pub fn update_cooldown(self, d: i64) -> (r: BossMove)
        requires
            bossmove_in_fx(self),
            in_fx(d as int),
        ensures
            bm_same_kind(self, r),
            bm_timeout(r) == ticked_timer(bm_timeout(self), d as int),
            bm_hp(r) == bm_hp(self),
            tick_attack_rel(bm_attack(self), d as int, bm_attack(r)),
            bossmove_in_fx(r),
    {
        match self {
            BossMove::NonSpells { timeout, hp, attack } => {
                let mut t = timeout;
                t.tick(d);
                let a2 = update_cooldown_attack(&attack, d);
                BossMove::NonSpells { timeout: t, hp, attack: a2 }
            },
            BossMove::Spells { name, timeout, hp, attack } => {
                let mut t = timeout;
                t.tick(d);
                let a2 = update_cooldown_attack(&attack, d);
                BossMove::Spells { name, timeout: t, hp, attack: a2 }
            },
        }
    }

    /// Whether the phase's timeout has elapsed.
    pub fn is_timeout(&self) -> (r: bool)
        ensures
            r == timer_done(bm_timeout(*self)),
    {
        match self {
            BossMove::NonSpells { timeout, .. } => timeout.done(),
            BossMove::Spells { timeout, .. } => timeout.done(),
        }
    }

    /// Damage the phase's own hit-point budget; reports whether the budget
    /// fell to zero or below.
    pub fn damage(&mut self, damage: i64) -> (r: bool)
        requires
            bossmove_in_fx(*old(self)),
            in_fx(damage as int),
        ensures
            bm_same_kind(*old(self), *final(self)),
            bm_timeout(*final(self)) == bm_timeout(*old(self)),
            bm_attack(*final(self)) == bm_attack(*old(self)),
            *final(self) is NonSpells == *old(self) is NonSpells,
            bm_hp(*final(self)) == if bm_hp(*old(self)).invulnerable {
                bm_hp(*old(self))
            } else {
                Hitpoint {
                    hp: crate::fx::fx_sub_spec(bm_hp(*old(self)).hp as int, damage as int) as i64,
                    ..bm_hp(*old(self))
                }
            },
            r == (!bm_hp(*old(self)).invulnerable
                && crate::fx::fx_sub_spec(bm_hp(*old(self)).hp as int, damage as int) <= 0),
            bossmove_in_fx(*final(self)),
    {
        match self {
            BossMove::NonSpells { hp, .. } => hp.damage(damage),
            BossMove::Spells { hp, .. } => hp.damage(damage),
        }
    }

    /// Whether the phase's budget is spent: strictly below zero, as the
    /// hit-point record defines death.
    pub fn is_dead(&self) -> (r: bool)
        ensures
            r == (!bm_hp(*self).invulnerable && bm_hp(*self).hp < 0),
    {
        match self {
            BossMove::NonSpells { hp, .. } => hp.is_dead(),
            BossMove::Spells { hp, .. } => hp.is_dead(),
        }
    }

    /// Remaining hit points of the phase.
    pub fn get_cur_hp(&self) -> (r: i64)
        ensures
            r == bm_hp(*self).hp,
    {
        match self {
            BossMove::NonSpells { hp, .. } => hp.hp,
            BossMove::Spells { hp, .. } => hp.hp,
        }
    }

    /// Full hit points of the phase.
    pub fn get_max_hp(&self) -> (r: i64)
        ensures
            r == bm_hp(*self).max_hp,
    {
        match self {
            BossMove::NonSpells { hp, .. } => hp.max_hp,
            BossMove::Spells { hp, .. } => hp.max_hp,
        }
    }

    /// Seconds until the phase times out; zero once it has.
    pub fn get_time(&self) -> (r: i64)
        requires
            timer_in_fx(bm_timeout(*self)),
        ensures
            r as int == if bm_timeout(*self).period >= bm_timeout(*self).elapsed {
                bm_timeout(*self).period - bm_timeout(*self).elapsed
            } else {
                0
            },
    {
        let t = match self {
            BossMove::NonSpells { timeout, .. } => *timeout,
            BossMove::Spells { timeout, .. } => *timeout,
        };
        if t.period >= t.elapsed {
            t.period - t.elapsed
        } else {
            0
        }
    }
}

/// A boss's full choreography: the ordered queue of phases, the front one
/// active.
#[derive(Debug)]
pub struct BossMoves(pub Vec<BossMove>);

/// Every phase in a queue is in the fixed-point range.
pub open spec fn bossmoves_in_fx(q: BossMoves) -> bool {
    forall|i: int| 0 <= i < q.0@.len() ==> bossmove_in_fx(#[trigger] q.0@[i])
}

/// The unit directions at the four quarter turns.
pub proof fn lemma_quarter_dirs()
    ensures
        dir_spec(0) == (Cpx { re: FX_ONE, im: 0 }),
        dir_spec(DEG_QUARTER as int) == (Cpx { re: 0, im: FX_ONE }),
        dir_spec(DEG_HALF as int).re == -(FX_ONE as int)
            && dir_spec(DEG_HALF as int).im == 0,
        dir_spec((DEG_HALF + DEG_QUARTER) as int).re == 0
            && dir_spec((DEG_HALF + DEG_QUARTER) as int).im == -(FX_ONE as int),
{
    assert(0int * (180_000int - 0) == 0) by (nonlinear_arith);
    assert(90_000int * (180_000int - 90_000) == 8_100_000_000) by (nonlinear_arith);
    assert(180_000int * (180_000int - 180_000) == 0) by (nonlinear_arith);
    assert(0int / 40_500_000_000int == 0) by (nonlinear_arith);
    assert(4 * 8_100_000_000int * 1000 / (40_500_000_000int - 8_100_000_000)
        == 1000) by (nonlinear_arith);
    assert(90_000int % 360_000 == 90_000) by (nonlinear_arith);
    assert(180_000int % 360_000 == 180_000) by (nonlinear_arith);
    assert(270_000int % 360_000 == 270_000) by (nonlinear_arith);
    assert((270_000int + 90_000) % 360_000 == 0) by (nonlinear_arith);
    assert(half_sin_spec(0) == 0);
    assert(half_sin_spec(90_000) == FX_ONE);
    assert(half_sin_spec(180_000) == 0);
    assert(sin_spec(0) == 0);
    assert(cos_spec(0) == FX_ONE);
    assert(sin_spec(90_000) == FX_ONE);
    assert(cos_spec(90_000) == 0);
    assert(sin_spec(180_000) == 0);
    assert(cos_spec(180_000) == -(FX_ONE as int));
    assert(sin_spec(270_000) == -(FX_ONE as int));
    assert(cos_spec(270_000) == 0);
}

/// A four-sided ring with no initial rotation fires one volley of four
/// bullets a quarter turn apart — right, down, left and up the screen, each
/// at the pattern's speed — and its rotation advances by exactly the
/// per-fire increment.
pub proof fn lemma_circle_fan_out(
    origin: Cpx,
    target: Cpx,
    speed: i64,
    rpf: i64,
    cooldown: Cooldown,
    setup: BulletSetup,
    s: u64,
    r: AttackMove,
)
    requires
        cpx_in_fx(origin),
        in_fx(speed as int),
        0 <= rpf < DEG_TURN,
        timer_done(cooldown.0),
        fire_tree_rel(
            AttackMove::Circle {
                sides: 4,
                speed,
                rotation_per_fire: rpf,
                rotation: 0,
                cooldown,
                setup,
            },
            r,
        ),
    ensures
        ({
            let a = AttackMove::Circle {
                sides: 4,
                speed,
                rotation_per_fire: rpf,
                rotation: 0,
                cooldown,
                setup,
            };
            let bs = fire_bullets_spec(a, origin, target, s);
            &&& bs.len() == 4
            &&& bs[0].movement.velocity == (Cpx { re: speed, im: 0 })
            &&& bs[1].movement.velocity == (Cpx { re: 0, im: speed })
            &&& bs[2].movement.velocity.re == -(speed as int)
            &&& bs[2].movement.velocity.im == 0
            &&& bs[3].movement.velocity.re == 0
            &&& bs[3].movement.velocity.im == -(speed as int)
            &&& bs[0].transform.rotation == 0
            &&& bs[1].transform.rotation == DEG_QUARTER
            &&& bs[2].transform.rotation == DEG_HALF
            &&& bs[3].transform.rotation == DEG_HALF + DEG_QUARTER
            &&& r matches AttackMove::Circle { rotation: rot2, .. } && rot2 == rpf
        }),
{
    lemma_quarter_dirs();
    crate::fx::lemma_fx_mul_unit(speed as int);
    assert(0int * 360_000 / 4 == 0) by (nonlinear_arith);
    assert(1int * 360_000 / 4 == 90_000) by (nonlinear_arith);
    assert(2int * 360_000 / 4 == 180_000) by (nonlinear_arith);
    assert(3int * 360_000 / 4 == 270_000) by (nonlinear_arith);
    assert(0int % 360_000 == 0) by (nonlinear_arith);
    assert(90_000int % 360_000 == 90_000) by (nonlinear_arith);
    assert(180_000int % 360_000 == 180_000) by (nonlinear_arith);
    assert(270_000int % 360_000 == 270_000) by (nonlinear_arith);
    assert((0int + rpf) % 360_000 == rpf) by (nonlinear_arith)
        requires
            0 <= rpf < 360_000;
    let a = AttackMove::Circle {
        sides: 4,
        speed,
        rotation_per_fire: rpf,
        rotation: 0,
        cooldown,
        setup,
    };
    let bs = fire_bullets_spec(a, origin, target, s);
    assert(bs[0] == circle_bullet_spec(origin, speed, 4, 0, setup, 0));
    assert(bs[1] == circle_bullet_spec(origin, speed, 4, 0, setup, 1));
    assert(bs[2] == circle_bullet_spec(origin, speed, 4, 0, setup, 2));
    assert(bs[3] == circle_bullet_spec(origin, speed, 4, 0, setup, 3));
}

} // verus!
