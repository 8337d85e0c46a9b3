//! Player control and enemy wander steering.

use vstd::prelude::*;
use crate::components::{
    rect_contains_spec, CircleHitbox, Rect, Sprite, Transform2D, Wanderable,
};
use crate::cpx::{cadd_spec, cpx_in_fx, cscale_spec, Cpx};
use crate::fx::{fx_add, fx_add_spec, in_fx, sdiv, FX_ONE};
use crate::motion::{
    move_linear_spec, move_towards_spec, mp_in_fx, MoveParams,
};
use crate::player::PlayerAttack;
use crate::rng::{rng_next_spec, rng_sample_spec, rng_wf, Rng};
use crate::systems::Cue;
use crate::timer::timer_done;
use crate::trig::{dir_to, dir_to_spec};
use crate::world::{comps_in_fx, ids_sorted, world_wf, Components, Entry, World};

verus! {

/// The logical actions sampled once per frame and handed to the control
/// pass; mapping physical keys to these is the host's business.
#[derive(Clone, Copy, Debug, PartialEq, Eq, Structural)]
pub struct InputState {
    pub up: bool,
    pub down: bool,
    pub left: bool,
    pub right: bool,
    pub focus: bool,
    /// The attack action is held this frame.
    pub attack: bool,
    /// The attack action was newly pressed this frame.
    pub attack_pressed: bool,
    /// The spell action was newly pressed this frame.
    pub spell_pressed: bool,
    /// The escape action was newly pressed this frame.
    pub escape_pressed: bool,
    /// The accept action was newly pressed this frame.
    pub accept_pressed: bool,
    /// The up action was newly pressed this frame.
    pub up_pressed: bool,
    /// The down action was newly pressed this frame.
    pub down_pressed: bool,
}

impl InputState {
    /// No action held or pressed.
    pub fn idle() -> (r: InputState)
        ensures
            r == (InputState {
                up: false,
                down: false,
                left: false,
                right: false,
                focus: false,
                attack: false,
                attack_pressed: false,
                spell_pressed: false,
                escape_pressed: false,
                accept_pressed: false,
                up_pressed: false,
                down_pressed: false,
            }),
    {
        InputState {
            up: false,
            down: false,
            left: false,
            right: false,
            focus: false,
            attack: false,
            attack_pressed: false,
            spell_pressed: false,
            escape_pressed: false,
            accept_pressed: false,
            up_pressed: false,
            down_pressed: false,
        }
    }
}

/// Thrust applied while a direction is held, fixed-point pixels per second
/// squared.
pub const MOVE_THRUST: i64 = 5_000_000;

/// Scale a thrust down to five thirteenths — the focus slowdown of one over
/// two point six, exactly.
pub open spec fn focus_scale_spec(x: int) -> int {
    sdiv(x * 5, 13)
}

/// Exact five-thirteenths scaling.
pub fn focus_scale(x: i64) -> (r: i64)
    requires
        -100_000_000 <= x <= 100_000_000,
    ensures
        r == focus_scale_spec(x as int),
{
    if x >= 0 {
        (x * 5) / 13
    } else {
        -(((-x) * 5) / 13)
    }
}

/// The acceleration the held directions impart: each direction contributes
/// its thrust only while the player is inside the arena on that side, and
/// focus scales the whole to five thirteenths.
pub open spec fn control_accel_spec(pos: Cpx, input: InputState) -> Cpx {
    let dx = (if input.left && pos.re > 0 { -(MOVE_THRUST as int) } else { 0 }) + (if input.right
        && pos.re < 352_000 { MOVE_THRUST as int } else { 0 });
    let dy = (if input.up && pos.im > 0 { -(MOVE_THRUST as int) } else { 0 }) + (if input.down
        && pos.im < 416_000 { MOVE_THRUST as int } else { 0 });
    if input.focus {
        Cpx { re: focus_scale_spec(dx) as i64, im: focus_scale_spec(dy) as i64 }
    } else {
        Cpx { re: dx as i64, im: dy as i64 }
    }
}

/// Whether the control pass concerns an entry.
pub open spec fn controllable_entry(e: Entry) -> bool {
    e.c.controllable && e.c.transform is Some && e.c.move_params is Some
        && e.c.player_attack is Some
}

/// A controlled entry after the pass: acceleration set from the inputs and
/// the basic-attack cooldown advanced and consumed while attack is held.
pub open spec fn controlled_entry(e: Entry, input: InputState, dt: int) -> Entry {
    if controllable_entry(e) {
        let pos = (e.c.transform->0).position;
        let mp = e.c.move_params->0;
        let pa = e.c.player_attack->0;
        let mp2 = MoveParams { acceleration: control_accel_spec(pos, input), ..mp };
        let pa2 = if input.attack {
            let t = crate::attack::ticked_timer(pa.basic.0.0, dt);
            PlayerAttack {
                basic: crate::player::Attack(
                    crate::timer::Cooldown(crate::attack::consumed_timer(t)),
                    pa.basic.1,
                ),
                ..pa
            }
        } else {
            pa
        };
        Entry {
            id: e.id,
            c: Components { move_params: Some(mp2), player_attack: Some(pa2), ..e.c },
        }
    } else {
        e
    }
}

/// Whether a controlled entry fires its basic shot this frame: attack held
/// and the cooldown complete after the frame's tick.
pub open spec fn fires_basic(e: Entry, input: InputState, dt: int) -> bool {
    controllable_entry(e) && input.attack && timer_done(
        crate::attack::ticked_timer((e.c.player_attack->0).basic.0.0, dt),
    )
}

/// The shots one entry fires this frame, each at the entry's position: the
/// basic shot when the held attack completes the cooldown, then a spell
/// shot on a newly pressed spell.
pub open spec fn entry_shots(e: Entry, input: InputState, dt: int) -> Seq<Cpx> {
    (if fires_basic(e, input, dt) {
        seq![(e.c.transform->0).position]
    } else {
        Seq::<Cpx>::empty()
    }) + (if controllable_entry(e) && input.spell_pressed {
        seq![(e.c.transform->0).position]
    } else {
        Seq::<Cpx>::empty()
    })
}

/// The spawn positions of every shot the control pass fires, in store
/// order.
pub open spec fn shot_positions(s: Seq<Entry>, input: InputState, dt: int) -> Seq<Cpx>
    decreases s.len(),
{
    if s.len() == 0 {
        Seq::empty()
    } else {
        shot_positions(s.subrange(0, s.len() - 1), input, dt) + entry_shots(
            s[s.len() - 1],
            input,
            dt,
        )
    }
}

/// The bundle of the player's basic shot, fired straight up from `pos`.
pub open spec fn player_shot_comps(pos: Cpx) -> Components {
    Components {
        player: true,
        controllable: false,
        enemy: false,
        boss: false,
        bullet: true,
        die_offscreen: true,
        been_on_screen: None,
        transform: Some(Transform2D { position: pos, scale: Cpx { re: 1000, im: 1000 },
            rotation: 0 }),
        move_params: Some(move_linear_spec(Cpx { re: 0, im: (-5_000_000) as i64 })),
        sprite: Some(Sprite { name: "reimu_sprite", src: Rect { x: 0, y: 128_000, w: 32_000,
            h: 32_000 } }),
        hitbox: Some(CircleHitbox { radius: 2_000, offset: Cpx { re: 16_000, im: 16_000 } }),
        hitpoint: None,
        focusable: None,
        wanderable: None,
        boss_moves: None,
        player_attack: None,
        damage: Some(100_000),
        invulnerable_delay: None,
    }
}

/// Spawn the player's basic shot.
pub fn spawn_player_shot(world: &mut World, pos: Cpx) -> (id: u64)
    requires
        world_wf(*old(world)),
        cpx_in_fx(pos),
        old(world).next_id < 0xffff_ffff_ffff_ffff,
    ensures
        id == old(world).next_id,
        final(world).entries@ == old(world).entries@.push(
            Entry { id, c: player_shot_comps(pos) },
        ),
        final(world).next_id == old(world).next_id + 1,
        world_wf(*final(world)),
{
    let mut c = Components::empty();
    c.player = true;
    c.bullet = true;
    c.die_offscreen = true;
    c.transform = Some(Transform2D::new(pos, Cpx::new(1000, 1000), 0));
    c.move_params = Some(MoveParams::move_linear(Cpx::new(0, -5_000_000)));
    c.sprite = Some(Sprite::new("reimu_sprite", 0, 4, 32_000, 32_000));
    c.hitbox = Some(CircleHitbox::new(2_000, Cpx::new(16_000, 16_000)));
    c.damage = Some(100_000);
    world.spawn(c)
}

/// Steer one entry from the frame's input and collect the positions of the
/// shots it fires, with one shot cue per shot.
#[verifier::rlimit(100)]
fn control_one(e: Entry, input: &InputState, dt: i64, shots: &mut Vec<Cpx>, cues: &mut Vec<Cue>)
    -> (r: Entry)
    requires
        comps_in_fx(e.c),
        in_fx(dt as int),
    ensures
        r == controlled_entry(e, *input, dt as int),
        comps_in_fx(r.c),
        r.id == e.id,
        final(shots)@ =~= old(shots)@ + entry_shots(e, *input, dt as int),
        final(cues)@.len() == old(cues)@.len() + entry_shots(e, *input, dt as int).len(),
        final(cues)@.subrange(0, old(cues)@.len() as int) =~= old(cues)@,
        forall|j: int|
            old(cues)@.len() <= j < final(cues)@.len() ==> final(cues)@[j] == Cue::Shot,
{
    let ghost e0 = e;
    let mut e = e;
    if e.c.controllable && e.c.transform.is_some() && e.c.move_params.is_some()
        && e.c.player_attack.is_some() {
        let pos = e.c.transform.as_ref().unwrap().position;
        let mut mp = *e.c.move_params.as_ref().unwrap();
        let mut pa = *e.c.player_attack.as_ref().unwrap();
        let mut ax: i64 = 0;
        let mut ay: i64 = 0;
        if input.left && pos.re > 0 {
            ax = ax - MOVE_THRUST;
        }
        if input.right && pos.re < 352_000 {
            ax = ax + MOVE_THRUST;
        }
        if input.up && pos.im > 0 {
            ay = ay - MOVE_THRUST;
        }
        if input.down && pos.im < 416_000 {
            ay = ay + MOVE_THRUST;
        }
        if input.focus {
            ax = focus_scale(ax);
            ay = focus_scale(ay);
        }
        mp.acceleration = Cpx::new(ax, ay);
        if input.attack {
            pa.basic.0.0.tick(dt);
            let ready = pa.basic.0.0.completed();
            if ready {
                shots.push(pos);
                cues.push(Cue::Shot);
            }
        }
        if input.spell_pressed {
            shots.push(pos);
            cues.push(Cue::Shot);
        }
        e.c.move_params = Some(mp);
        e.c.player_attack = Some(pa);
        proof {
            assert(e == controlled_entry(e0, *input, dt as int));
        }
    }
    proof {
        assert(shots@ =~= old(shots)@ + entry_shots(e0, *input, dt as int));
    }
    e
}

/// Steer controllable entities from the frame's input: set their
/// acceleration from the held directions, slowed while focusing, advance
/// the basic-attack cooldown while attack is held and fire the basic shot
/// when it completes; a newly pressed spell fires one shot at once. Shots
/// spawn after the pass, as player bullets.
#[verifier::rlimit(100)]
pub fn player_control(w: &mut World, input: &InputState, dt: i64, cues: &mut Vec<Cue>)
    requires
        world_wf(*old(w)),
        in_fx(dt as int),
    ensures
        world_wf(*final(w)),
        final(w).entries@.len() >= old(w).entries@.len(),
        forall|i: int|
            0 <= i < old(w).entries@.len() ==> final(w).entries@[i] == controlled_entry(
                #[trigger] old(w).entries@[i],
                *input,
                dt as int,
            ),
        forall|j: int|
            old(w).entries@.len() <= j < final(w).entries@.len() ==> ({
                let c = (#[trigger] final(w).entries@[j]).c;
                c.player && c.bullet && c.die_offscreen && c.damage is Some
            }),
        (forall|i: int|
            0 <= i < old(w).entries@.len() ==> !(fires_basic(#[trigger] old(w).entries@[i],
                *input, dt as int) || (controllable_entry(old(w).entries@[i])
                && input.spell_pressed))) ==> final(w).entries@.len()
            == old(w).entries@.len(),
        final(cues)@ =~= old(cues)@ + Seq::new(
            shot_positions(old(w).entries@, *input, dt as int).len(),
            |i: int| Cue::Shot,
        ),
        old(w).next_id as int + shot_positions(old(w).entries@, *input, dt as int).len()
            <= 0xffff_ffff_ffff_fffe ==> ({
            let ps = shot_positions(old(w).entries@, *input, dt as int);
            &&& final(w).next_id == old(w).next_id + ps.len()
            &&& final(w).entries@.len() == old(w).entries@.len() + ps.len()
            &&& forall|j: int|
                0 <= j < ps.len() ==> final(w).entries@[old(w).entries@.len() + j] == (Entry {
                    id: (old(w).next_id + j) as u64,
                    c: player_shot_comps(ps[j]),
                })
        }),
{
    let ghost s0 = w.entries@;
    let ghost cues0 = cues@;
    let mut shots: Vec<Cpx> = Vec::new();
    let mut src: Vec<Entry> = Vec::new();
    core::mem::swap(&mut src, &mut w.entries);
    let mut out: Vec<Entry> = Vec::new();
    proof {
        assert(shots@ =~= shot_positions(s0.subrange(0, 0), *input, dt as int));
        assert(cues@.subrange(0, cues0.len() as int) =~= cues0);
    }
    while src.len() > 0
        invariant
            out@.len() + src@.len() == s0.len(),
            src@ == s0.subrange(out@.len() as int, s0.len() as int),
            forall|k: int|
                0 <= k < out@.len() ==> out@[k] == controlled_entry(#[trigger] s0[k], *input,
                    dt as int),
            forall|k: int| 0 <= k < out@.len() ==> #[trigger] out@[k].id == s0[k].id,
            forall|k: int| 0 <= k < out@.len() ==> comps_in_fx(#[trigger] out@[k].c),
            ids_sorted(s0),
            forall|k: int| 0 <= k < s0.len() ==> comps_in_fx(#[trigger] s0[k].c),
            forall|k: int| 0 <= k < s0.len() ==> #[trigger] s0[k].id < old(w).next_id,
            forall|m: int| 0 <= m < shots@.len() ==> cpx_in_fx(#[trigger] shots@[m]),
            in_fx(dt as int),
            (forall|i: int|
                0 <= i < s0.len() ==> !(fires_basic(#[trigger] s0[i], *input, dt as int) || (
                controllable_entry(s0[i]) && input.spell_pressed))) ==> shots@.len() == 0,
            shots@ =~= shot_positions(s0.subrange(0, out@.len() as int), *input, dt as int),
            cues@.len() == cues0.len() + shots@.len(),
            cues@.subrange(0, cues0.len() as int) =~= cues0,
            forall|j: int| cues0.len() <= j < cues@.len() ==> cues@[j] == Cue::Shot,
        decreases src@.len(),
    {
        let ghost done = out@.len() as int;
        let ghost shots_pre = shots@;
        let ghost cues_pre = cues@;
        let e = src.remove(0);
        proof {
            assert(e == s0[done]);
            assert(src@ =~= s0.subrange(done + 1, s0.len() as int));
            assert(s0.subrange(0, done + 1).subrange(0, done) =~= s0.subrange(0, done));
            assert(s0.subrange(0, done + 1)[done] == s0[done]);
        }
        let e2 = control_one(e, input, dt, &mut shots, cues);
        out.push(e2);
        proof {
            assert(shots@ =~= shot_positions(s0.subrange(0, done + 1), *input, dt as int));
            assert(cues@.subrange(0, cues0.len() as int) =~= cues0) by {
                assert(cues@.subrange(0, cues_pre.len() as int) =~= cues_pre);
                assert(cues_pre.subrange(0, cues0.len() as int) =~= cues0);
                assert(cues@.subrange(0, cues0.len() as int) =~= cues_pre.subrange(
                    0,
                    cues0.len() as int,
                ));
            };
            assert forall|j: int| cues0.len() <= j < cues@.len() implies cues@[j]
                == Cue::Shot by {
                if j < cues_pre.len() {
                    assert(cues@[j] == cues@.subrange(0, cues_pre.len() as int)[j]);
                    assert(cues@[j] == cues_pre[j]);
                }
            };
        }
    }
    w.entries = out;
    proof {
        assert(forall|i: int, j: int|
            0 <= i < j < w.entries@.len() ==> #[trigger] w.entries@[i].id
                < #[trigger] w.entries@[j].id);
    }
    let ghost evolved = w.entries@;
    let mut m: usize = 0;
    while m < shots.len()
        invariant
            world_wf(*w),
            0 <= m <= shots@.len(),
            w.entries@.len() >= evolved.len(),
            w.entries@.subrange(0, evolved.len() as int) =~= evolved,
            forall|mm: int| 0 <= mm < shots@.len() ==> cpx_in_fx(#[trigger] shots@[mm]),
            forall|j: int|
                evolved.len() <= j < w.entries@.len() ==> ({
                    let c = (#[trigger] w.entries@[j]).c;
                    c.player && c.bullet && c.die_offscreen && c.damage is Some
                }),
            m == 0 ==> w.entries@.len() == evolved.len(),
            shots@.len() == 0 ==> w.entries@.len() == evolved.len(),
            old(w).next_id as int + shots@.len() <= 0xffff_ffff_ffff_fffe ==> (w.next_id
                == old(w).next_id + m && w.entries@.len() == evolved.len() + m && (
            forall|j: int|
                0 <= j < m ==> w.entries@[evolved.len() + j] == (Entry {
                    id: (old(w).next_id + j) as u64,
                    c: player_shot_comps(shots@[j]),
                }))),
        decreases shots@.len() - m,
    {
        let p = shots[m];
        if w.next_id < 0xffff_ffff_ffff_fffe {
            spawn_player_shot(w, p);
        }
        proof {
            assert(w.entries@.subrange(0, evolved.len() as int) =~= evolved);
        }
        m = m + 1;
    }
    proof {
        assert(s0.subrange(0, s0.len() as int) =~= s0);
        assert(evolved.len() == s0.len());
        assert(shots@ =~= shot_positions(s0, *input, dt as int));
        assert(cues@ =~= cues0 + Seq::new(shot_positions(s0, *input, dt as int).len(),
            |i: int| Cue::Shot));
    }
}

/// A retarget draws a fresh point inside the wander rectangle, or falls
/// back to the default point when four attempts all land outside.
pub open spec fn wander_default_point() -> Cpx {
    Cpx { re: 150_000, im: 50_000 }
}

/// Whether the wander pass concerns an entry.
pub open spec fn wander_applies(e: Entry) -> bool {
    e.c.wanderable is Some && e.c.move_params is Some && e.c.transform is Some
}

/// Whether the entry draws a fresh patrol target this frame: no target set
/// and the wait has run out.
pub open spec fn wander_retargets(e: Entry) -> bool {
    wander_applies(e) && (e.c.wanderable->0).target_pos is None
        && (e.c.wanderable->0).elapsed > (e.c.wanderable->0).wait
}

/// The candidate point one retarget attempt draws from generator state `s`:
/// two samples, each a whole-pixel coordinate in the rectangle's coordinate
/// ranges, scaled back to fixed point.
pub open spec fn wander_attempt_point(rect: Rect, s: u64) -> Cpx {
    let sx = rng_next_spec(s);
    let sy = rng_next_spec(sx);
    Cpx {
        re: (rng_sample_spec(sx, sdiv(rect.x as int, FX_ONE as int) as i64,
            sdiv(rect.w as int, FX_ONE as int) as i64) * 1000) as i64,
        im: (rng_sample_spec(sy, sdiv(rect.y as int, FX_ONE as int) as i64,
            sdiv(rect.h as int, FX_ONE as int) as i64) * 1000) as i64,
    }
}

/// The generator state after `n` retarget attempts: each draws two samples.
pub open spec fn wander_state_after(s: u64, n: int) -> u64
    decreases n,
{
    if n <= 0 {
        s
    } else {
        rng_next_spec(rng_next_spec(wander_state_after(s, n - 1)))
    }
}

/// The target `n` retarget attempts from state `s` pick: the last drawn
/// point inside the rectangle, or the fallback point when every attempt
/// lands outside.
pub open spec fn wander_pick_spec(rect: Rect, s: u64, n: int) -> Cpx
    decreases n,
{
    if n <= 0 {
        wander_default_point()
    } else {
        let prev = wander_pick_spec(rect, s, n - 1);
        let p = wander_attempt_point(rect, wander_state_after(s, n - 1));
        if rect_contains_spec(rect, p) {
            p
        } else {
            prev
        }
    }
}

/// The generator state one entry of the wander pass leaves behind.
pub open spec fn wander_entry_state(e: Entry, rs: u64) -> u64 {
    if wander_retargets(e) {
        wander_state_after(rs, 4)
    } else {
        rs
    }
}

/// The generator state threaded through the wander pass over a store.
pub open spec fn wander_pass_state(s: Seq<Entry>, rs: u64) -> u64
    decreases s.len(),
{
    if s.len() == 0 {
        rs
    } else {
        wander_entry_state(s[s.len() - 1], wander_pass_state(s.subrange(0, s.len() - 1), rs))
    }
}

/// One entry after the wander pass, given the generator state `rs` it
/// starts from. Steering toward a set target and the waiting countdown are
/// exact; a retarget draws four candidate points from the generator and
/// takes the last one inside the wander rectangle, falling back to the
/// default point when all four land outside.
pub open spec fn wander_rel(e: Entry, dt: int, rs: u64, e2: Entry) -> bool {
    if !wander_applies(e) {
        e2 == e
    } else {
        let wd = e.c.wanderable->0;
        let pos = (e.c.transform->0).position;
        match wd.target_pos {
            Some(tgt) => {
                let arrived = rect_contains_spec(
                    Rect { x: tgt.re, y: tgt.im, w: 32_000, h: 32_000 },
                    cadd_spec(pos, Cpx { re: 16_000, im: 32_000 }),
                );
                if arrived {
                    e2 == (Entry {
                        id: e.id,
                        c: Components {
                            move_params: Some(move_linear_spec(Cpx { re: 0, im: 0 })),
                            wanderable: Some(
                                Wanderable { elapsed: 0, target_pos: None, ..wd },
                            ),
                            ..e.c
                        },
                    })
                } else {
                    e2 == (Entry {
                        id: e.id,
                        c: Components {
                            move_params: Some(
                                move_towards_spec(
                                    cscale_spec(dir_to_spec(pos, tgt), wd.speed as int),
                                    tgt,
                                    Cpx { re: 1000, im: 1000 },
                                ),
                            ),
                            ..e.c
                        },
                    })
                }
            },
            None => {
                if wd.elapsed > wd.wait {
                    e2 == (Entry {
                        id: e.id,
                        c: Components {
                            wanderable: Some(
                                Wanderable {
                                    elapsed: 0,
                                    target_pos: Some(
                                        wander_pick_spec(wd.wander_size, rs, 4),
                                    ),
                                    ..wd
                                },
                            ),
                            ..e.c
                        },
                    })
                } else {
                    e2 == (Entry {
                        id: e.id,
                        c: Components {
                            wanderable: Some(
                                Wanderable {
                                    elapsed: fx_add_spec(wd.elapsed as int, dt) as i64,
                                    ..wd
                                },
                            ),
                            ..e.c
                        },
                    })
                }
            },
        }
    }
}

/// Truncate a fixed-point coordinate to whole pixels.
fn px_of(v: i64) -> (r: i64)
    requires
        in_fx(v as int),
    ensures
        r == sdiv(v as int, FX_ONE as int),
        -2_000_000 <= r <= 2_000_000,
{
    if v >= 0 {
        v / FX_ONE
    } else {
        -((-v) / FX_ONE)
    }
}

/// Wander steering: an entity with a target steers toward it at its patrol
/// speed and forgets it on arrival; one whose wait has run out draws a new
/// target from its rectangle, exactly four attempts keeping the last point
/// inside it, with a fixed fallback; the rest just wait. The generator
/// state threads through the retargeting entries in store order.
#[verifier::rlimit(100)]
#[verifier::spinoff_prover]
pub fn wanderable_search(w: &mut World, rng: &mut Rng, dt: i64)
    requires
        world_wf(*old(w)),
        in_fx(dt as int),
        rng_wf(*old(rng)),
    ensures
        world_wf(*final(w)),
        rng_wf(*final(rng)),
        final(w).next_id == old(w).next_id,
        final(w).entries@.len() == old(w).entries@.len(),
        final(rng).state == wander_pass_state(old(w).entries@, old(rng).state),
        forall|i: int|
            0 <= i < old(w).entries@.len() ==> wander_rel(#[trigger] old(w).entries@[i],
                dt as int, wander_pass_state(old(w).entries@.subrange(0, i),
                old(rng).state), final(w).entries@[i]),
{
    let ghost s0 = w.entries@;
    let ghost rs0 = rng.state;
    let mut src: Vec<Entry> = Vec::new();
    core::mem::swap(&mut src, &mut w.entries);
    let mut out: Vec<Entry> = Vec::new();
    proof {
        assert(s0.subrange(0, 0) =~= Seq::<Entry>::empty());
    }
    while src.len() > 0
        invariant
            out@.len() + src@.len() == s0.len(),
            src@ == s0.subrange(out@.len() as int, s0.len() as int),
            forall|k: int|
                0 <= k < out@.len() ==> wander_rel(#[trigger] s0[k], dt as int,
                    wander_pass_state(s0.subrange(0, k), rs0), out@[k]),
            forall|k: int| 0 <= k < out@.len() ==> #[trigger] out@[k].id == s0[k].id,
            forall|k: int| 0 <= k < out@.len() ==> comps_in_fx(#[trigger] out@[k].c),
            ids_sorted(s0),
            forall|k: int| 0 <= k < s0.len() ==> comps_in_fx(#[trigger] s0[k].c),
            in_fx(dt as int),
            rng_wf(*rng),
            rng.state == wander_pass_state(s0.subrange(0, out@.len() as int), rs0),
        decreases src@.len(),
    {
        let ghost done = out@.len() as int;
        let ghost s_ent = rng.state;
        let mut e = src.remove(0);
        proof {
            assert(e == s0[done]);
            assert(src@ =~= s0.subrange(done + 1, s0.len() as int));
            assert(s0.subrange(0, done + 1).subrange(0, done) =~= s0.subrange(0, done));
            assert(s0.subrange(0, done + 1)[done] == s0[done]);
        }
        if e.c.wanderable.is_some() && e.c.move_params.is_some() && e.c.transform.is_some() {
            let mut wd = *e.c.wanderable.as_ref().unwrap();
            let pos = e.c.transform.as_ref().unwrap().position;
            match wd.target_pos {
                Some(tgt) => {
                    let arrival = Rect::new(tgt.re, tgt.im, 32_000, 32_000);
                    let probe = pos.plus(&Cpx::new(16_000, 32_000));
                    if arrival.contains(&probe) {
                        e.c.move_params = Some(MoveParams::move_linear(Cpx::zero()));
                        wd.elapsed = 0;
                        wd.target_pos = None;
                        e.c.wanderable = Some(wd);
                    } else {
                        let vel = dir_to(&pos, &tgt).scale(wd.speed);
                        e.c.move_params = Some(
                            MoveParams::move_towards(vel, tgt, Cpx::new(1000, 1000)),
                        );
                    }
                },
                None => {
                    if wd.elapsed > wd.wait {
                        wd.elapsed = 0;
                        let mut result = Cpx::new(150_000, 50_000);
                        let lo_x = px_of(wd.wander_size.x);
                        let hi_x = px_of(wd.wander_size.w);
                        let lo_y = px_of(wd.wander_size.y);
                        let hi_y = px_of(wd.wander_size.h);
                        let mut attempt: usize = 0;
                        while attempt < 4
                            invariant
                                0 <= attempt <= 4,
                                rng_wf(*rng),
                                crate::components::rect_in_fx(wd.wander_size),
                                lo_x as int == sdiv(wd.wander_size.x as int, FX_ONE as int),
                                hi_x as int == sdiv(wd.wander_size.w as int, FX_ONE as int),
                                lo_y as int == sdiv(wd.wander_size.y as int, FX_ONE as int),
                                hi_y as int == sdiv(wd.wander_size.h as int, FX_ONE as int),
                                -2_000_000 <= lo_x <= 2_000_000,
                                -2_000_000 <= hi_x <= 2_000_000,
                                -2_000_000 <= lo_y <= 2_000_000,
                                -2_000_000 <= hi_y <= 2_000_000,
                                rng.state == wander_state_after(s_ent, attempt as int),
                                result == wander_pick_spec(wd.wander_size, s_ent,
                                    attempt as int),
                                cpx_in_fx(result),
                            decreases 4 - attempt,
                        {
                            let ghost s_att = rng.state;
                            let rx = rng.range(lo_x, hi_x) * FX_ONE;
                            let ghost sx = rng.state;
                            let ry = rng.range(lo_y, hi_y) * FX_ONE;
                            let ghost sy = rng.state;
                            let p = Cpx::new(rx, ry);
                            proof {
                                assert(cpx_in_fx(p));
                                assert(sx == rng_next_spec(s_att));
                                assert(sy == rng_next_spec(sx));
                                assert(p == wander_attempt_point(wd.wander_size, s_att));
                            }
                            if wd.wander_size.contains(&p) {
                                result = p;
                            }
                            proof {
                                assert(result == wander_pick_spec(wd.wander_size, s_ent,
                                    attempt as int + 1));
                            }
                            attempt = attempt + 1;
                        }
                        wd.target_pos = Some(result);
                        e.c.wanderable = Some(wd);
                        proof {
                            assert(result == wander_pick_spec(wd.wander_size, s_ent, 4));
                            assert(rng.state == wander_state_after(s_ent, 4));
                        }
                    } else {
                        wd.elapsed = fx_add(wd.elapsed, dt);
                        e.c.wanderable = Some(wd);
                    }
                },
            }
            proof {
                assert(wander_rel(s0[done], dt as int, s_ent, e));
            }
        }
        out.push(e);
        proof {
            assert(rng.state == wander_entry_state(s0[done], s_ent));
            assert(rng.state == wander_pass_state(s0.subrange(0, done + 1), rs0));
        }
    }
    w.entries = out;
    proof {
        assert(forall|i: int, j: int|
            0 <= i < j < w.entries@.len() ==> #[trigger] w.entries@[i].id
                < #[trigger] w.entries@[j].id);
        assert(s0.subrange(0, s0.len() as int) =~= s0);
    }
}

} // verus!
