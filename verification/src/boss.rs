//! The boss attack pass.
//!
//! Each frame, every boss with a choreography evaluates its front phase
//! against the first player: the phase's pattern fires whatever leaves are
//! ready, every cooldown in the phase then advances by the frame, and a
//! phase whose timeout has elapsed is popped with a phase-end cue. The
//! emitted bullets are spawned after all bosses were handled, keeping the
//! snapshot-then-mutate discipline.

use vstd::prelude::*;
use crate::attack::{
    attack_in_fx, bm_attack, bm_hp, bm_same_kind, bm_timeout, bossmove_in_fx, bullet_in_fx,
    consumed_timer, fire_attack, fire_bullets_spec, fire_state_spec, fire_tree_rel,
    tick_attack_rel, ticked_timer, AttackMove, BossMove, BossMoves, SpawnBullet,
};
use crate::cpx::Cpx;
use crate::fx::in_fx;
use crate::rng::{rng_wf, Rng};
use crate::systems::Cue;
use crate::timer::timer_done;
use crate::world::{comps_in_fx, world_wf, Components, Entry, World};

verus! {

/// `r` is the pattern after one boss tick: ready cooldowns consumed and
/// rotations advanced by the firing, then every cooldown advanced by the
/// frame.
pub open spec fn fired_ticked_rel(a: AttackMove, d: int, r: AttackMove) -> bool
    decreases a,
{
    match a {
        AttackMove::AtPlayer { num, speed, spread, total_shoot, cooldown, setup } => {
            r matches AttackMove::AtPlayer {
                num: n2, speed: s2, spread: p2, total_shoot: t2, cooldown: c2, setup: u2 }
                && n2 == num && s2 == speed && p2 == spread && t2 == total_shoot
                && c2.0 == ticked_timer(consumed_timer(cooldown.0), d) && u2 == setup
        },
        AttackMove::Circle { sides, speed, rotation_per_fire, rotation, cooldown, setup } => {
            r matches AttackMove::Circle {
                sides: n2, speed: s2, rotation_per_fire: f2, rotation: o2, cooldown: c2,
                setup: u2 }
                && n2 == sides && s2 == speed && f2 == rotation_per_fire
                && o2 == if timer_done(cooldown.0) {
                    (rotation + rotation_per_fire) % (crate::trig::DEG_TURN as int)
                } else {
                    rotation as int
                }
                && c2.0 == ticked_timer(consumed_timer(cooldown.0), d) && u2 == setup
        },
        AttackMove::Multiple(moves) => {
            r matches AttackMove::Multiple(out) && out@.len() == moves@.len()
                && forall|i: int|
                    0 <= i < moves@.len() ==> fired_ticked_rel(moves@[i], d, #[trigger] out@[i])
        },
    }
}

/// Firing and then advancing the cooldowns composes into the one-tick
/// relation.
pub proof fn lemma_fire_tick_compose(a: AttackMove, mid: AttackMove, fin: AttackMove, d: int)
    requires
        fire_tree_rel(a, mid),
        tick_attack_rel(mid, d, fin),
    ensures
        fired_ticked_rel(a, d, fin),
    decreases a,
{
    match a {
        AttackMove::AtPlayer { .. } => {},
        AttackMove::Circle { .. } => {},
        AttackMove::Multiple(moves) => {
            let midv = mid->Multiple_0;
            let finv = fin->Multiple_0;
            assert forall|i: int| 0 <= i < moves@.len() implies fired_ticked_rel(
                moves@[i],
                d,
                #[trigger] finv@[i],
            ) by {
                assert(fire_tree_rel(moves@[i], midv@[i]));
                assert(tick_attack_rel(midv@[i], d, finv@[i]));
                lemma_fire_tick_compose(moves@[i], midv@[i], finv@[i], d);
            };
        },
    }
}

/// A boss entry after its attack tick: everything but the choreography as
/// it stands; an empty queue stays empty, a timed-out front phase is
/// popped, and otherwise the front phase holds its fired-and-ticked pattern
/// and its advanced timeout while the rest of the queue waits unchanged.
pub open spec fn boss_entry_rel(e: Entry, dt: int, e2: Entry) -> bool {
    &&& e2.id == e.id
    &&& e2.c == (Components { boss_moves: e2.c.boss_moves, ..e.c })
    &&& e2.c.boss_moves is Some == e.c.boss_moves is Some
    &&& (e.c.boss_moves is Some ==> {
        let q = (e.c.boss_moves->0).0@;
        let q2 = (e2.c.boss_moves->0).0@;
        if q.len() == 0 {
            q2 =~= q
        } else {
            let t2 = ticked_timer(bm_timeout(q[0]), dt);
            if timer_done(t2) {
                q2 =~= q.subrange(1, q.len() as int)
            } else {
                &&& q2.len() == q.len()
                &&& q2.subrange(1, q.len() as int) =~= q.subrange(1, q.len() as int)
                &&& bm_same_kind(q[0], q2[0])
                &&& bm_timeout(q2[0]) == t2
                &&& bm_hp(q2[0]) == bm_hp(q[0])
                &&& fired_ticked_rel(bm_attack(q[0]), dt, bm_attack(q2[0]))
            }
        }
    })
}

/// Whether the boss pass concerns an entry: a boss enemy with a place and a
/// choreography.
pub open spec fn is_attacking_boss(e: Entry) -> bool {
    e.c.boss && e.c.enemy && e.c.transform is Some && e.c.boss_moves is Some
}

/// The boss pass's aim target: a controllable player with a place. No
/// hitbox is asked of the target.
pub open spec fn is_aim_player(e: Entry) -> bool {
    e.c.player && e.c.controllable && e.c.transform is Some
}

/// `k` is the position of the first aim target.
pub open spec fn first_aim_player_at(s: Seq<Entry>, k: int) -> bool {
    0 <= k < s.len() && is_aim_player(s[k]) && forall|j: int|
        0 <= j < k ==> !is_aim_player(#[trigger] s[j])
}

/// Position of the first aim target, if any.
fn find_first_aim_player(w: &World) -> (r: Option<usize>)
    ensures
        match r {
            Some(k) => first_aim_player_at(w.entries@, k as int),
            None => forall|j: int|
                0 <= j < w.entries@.len() ==> !is_aim_player(#[trigger] w.entries@[j]),
        },
{
    let n = w.len();
    let mut k: usize = 0;
    while k < n
        invariant
            n == w.entries@.len(),
            0 <= k <= n,
            forall|j: int| 0 <= j < k ==> !is_aim_player(#[trigger] w.entries@[j]),
        decreases n - k,
    {
        let e = w.get(k);
        if e.c.player && e.c.controllable && e.c.transform.is_some() {
            return Some(k);
        }
        k = k + 1;
    }
    None
}

/// Run one boss entry's attack tick: fire the front phase at the target,
/// advance its cooldowns and timeout, pop it when timed out. Emitted
/// bullets are pushed onto `out` with one shot cue for the volley, and a
/// pop sounds the phase end.
pub fn boss_attack_entry(
    e: Entry,
    target: Cpx,
    dt: i64,
    rng: &mut Rng,
    out: &mut Vec<SpawnBullet>,
    cues: &mut Vec<Cue>,
) -> (r: Entry)
    requires
        comps_in_fx(e.c),
        is_attacking_boss(e),
        crate::cpx::cpx_in_fx(target),
        in_fx(dt as int),
        rng_wf(*old(rng)),
    ensures
        comps_in_fx(r.c),
        rng_wf(*final(rng)),
        boss_entry_rel(e, dt as int, r),
        final(out)@.len() >= old(out)@.len(),
        final(out)@.subrange(0, old(out)@.len() as int) =~= old(out)@,
        forall|j: int|
            old(out)@.len() <= j < final(out)@.len() ==> bullet_in_fx(#[trigger] final(out)@[j]),
        ({
            let q = (e.c.boss_moves->0).0@;
            q.len() > 0 ==> final(out)@.subrange(old(out)@.len() as int, final(out)@.len() as int)
                =~= fire_bullets_spec(bm_attack(q[0]), (e.c.transform->0).position, target,
                    old(rng).state)
                && final(rng).state == fire_state_spec(bm_attack(q[0]), old(rng).state)
        }),
        ({
            let q = (e.c.boss_moves->0).0@;
            q.len() > 0 ==> final(cues)@ =~= old(cues)@ + (if fire_bullets_spec(bm_attack(q[0]),
                (e.c.transform->0).position, target, old(rng).state).len() > 0 {
                seq![Cue::Shot]
            } else {
                Seq::<Cue>::empty()
            }) + (if timer_done(ticked_timer(bm_timeout(q[0]), dt as int)) {
                seq![Cue::PhaseEnd]
            } else {
                Seq::<Cue>::empty()
            })
        }),
        ({
            let q = (e.c.boss_moves->0).0@;
            q.len() == 0 ==> *final(out) == *old(out) && *final(rng) == *old(rng)
                && final(cues)@ == old(cues)@
        }),
{
    let mut e = e;
    let mut q_opt: Option<BossMoves> = None;
    core::mem::swap(&mut q_opt, &mut e.c.boss_moves);
    let mut q = match q_opt {
        Some(q) => q,
        None => {
            proof {
                assert(false);
            }
            vstd::pervasive::unreached()
        },
    };
    if q.0.len() == 0 {
        e.c.boss_moves = Some(q);
        return e;
    }
    let ghost qv = q.0@;
    let front = q.0.remove(0);
    let pos = *e.c.transform.as_ref().unwrap();
    let before = out.len();
    let evolved_attack = match &front {
        BossMove::NonSpells { attack, .. } => fire_attack(attack, pos.position, target, rng, out),
        BossMove::Spells { attack, .. } => fire_attack(attack, pos.position, target, rng, out),
    };
    if out.len() > before {
        cues.push(Cue::Shot);
    }
    proof {
        assert(fire_tree_rel(bm_attack(qv[0]), evolved_attack));
    }
    let front2 = match front {
        BossMove::NonSpells { timeout, hp, .. } => BossMove::NonSpells {
            timeout,
            hp,
            attack: evolved_attack,
        },
        BossMove::Spells { name, timeout, hp, .. } => BossMove::Spells {
            name,
            timeout,
            hp,
            attack: evolved_attack,
        },
    };
    let front3 = front2.update_cooldown(dt);
    proof {
        lemma_fire_tick_compose(bm_attack(qv[0]), evolved_attack, bm_attack(front3), dt as int);
    }
    if front3.is_timeout() {
        cues.push(Cue::PhaseEnd);
    } else {
        q.0.insert(0, front3);
        proof {
            assert(q.0@ =~= qv.update(0, front3));
            assert(q.0@.subrange(1, qv.len() as int) =~= qv.subrange(1, qv.len() as int));
        }
    }
    e.c.boss_moves = Some(q);
    e
}

/// The entry spawned for the `k`-th emitted bullet.
pub open spec fn spawned_bullet_entry(b: SpawnBullet, id: u64) -> Entry {
    Entry { id, c: crate::entity::enemy_bullet_comps(b) }
}

/// What one boss entry's tick emits: its volley, its cues — a shot cue when
/// the volley is not empty, a phase-end cue when the frame times the front
/// phase out — and the generator state left behind. Entries the pass does
/// not concern emit nothing.
pub open spec fn boss_step_out(e: Entry, target: Cpx, dt: int, rs: u64) -> (
    Seq<SpawnBullet>,
    Seq<Cue>,
    u64,
) {
    if is_attacking_boss(e) && (e.c.boss_moves->0).0@.len() > 0 {
        let q = (e.c.boss_moves->0).0@;
        let bs = fire_bullets_spec(bm_attack(q[0]), (e.c.transform->0).position, target, rs);
        let cs = (if bs.len() > 0 {
            seq![Cue::Shot]
        } else {
            Seq::<Cue>::empty()
        }) + (if timer_done(ticked_timer(bm_timeout(q[0]), dt)) {
            seq![Cue::PhaseEnd]
        } else {
            Seq::<Cue>::empty()
        });
        (bs, cs, fire_state_spec(bm_attack(q[0]), rs))
    } else {
        (Seq::empty(), Seq::empty(), rs)
    }
}

/// The volleys, cues and generator state of the whole boss pass, folded
/// over the store in order with the generator state threaded through.
pub open spec fn boss_pass_out(s: Seq<Entry>, target: Cpx, dt: int, rs: u64) -> (
    Seq<SpawnBullet>,
    Seq<Cue>,
    u64,
)
    decreases s.len(),
{
    if s.len() == 0 {
        (Seq::empty(), Seq::empty(), rs)
    } else {
        let pre = boss_pass_out(s.subrange(0, s.len() - 1), target, dt, rs);
        let st = boss_step_out(s[s.len() - 1], target, dt, pre.2);
        (pre.0 + st.0, pre.1 + st.1, st.2)
    }
}

/// Run the boss attack pass: aim every boss's front phase at the first
/// player, fire what is ready, advance cooldowns and timeouts, pop
/// timed-out phases, and spawn the emitted bullets as enemy-bullet
/// entities at the end. Without a player nothing moves.
pub fn update_boss_attack(w: &mut World, rng: &mut Rng, dt: i64, cues: &mut Vec<Cue>)
    requires
        world_wf(*old(w)),
        in_fx(dt as int),
        rng_wf(*old(rng)),
    ensures
        world_wf(*final(w)),
        rng_wf(*final(rng)),
        (forall|i: int|
            0 <= i < old(w).entries@.len() ==> !is_aim_player(#[trigger] old(w).entries@[i]))
            ==> *final(w) == *old(w) && *final(rng) == *old(rng) && final(cues)@ == old(cues)@,
        final(w).entries@.len() >= old(w).entries@.len(),
        forall|pk: int|
            first_aim_player_at(old(w).entries@, pk) ==> forall|i: int|
                0 <= i < old(w).entries@.len() ==> if is_attacking_boss(
                    #[trigger] old(w).entries@[i],
                ) {
                    boss_entry_rel(old(w).entries@[i], dt as int, final(w).entries@[i])
                } else {
                    final(w).entries@[i] == old(w).entries@[i]
                },
        forall|j: int|
            old(w).entries@.len() <= j < final(w).entries@.len() ==> ({
                let c = (#[trigger] final(w).entries@[j]).c;
                c.enemy && c.bullet && c.die_offscreen
            }),
        forall|pk: int|
            first_aim_player_at(old(w).entries@, pk) ==> ({
                let target = (old(w).entries@[pk].c.transform->0).position;
                let fold = boss_pass_out(old(w).entries@, target, dt as int, old(rng).state);
                &&& final(rng).state == fold.2
                &&& final(cues)@ =~= old(cues)@ + fold.1
                &&& (old(w).next_id as int + fold.0.len() <= 0xffff_ffff_ffff_fffe ==> (
                    final(w).entries@.len() == old(w).entries@.len() + fold.0.len() && (
                    forall|j: int|
                        0 <= j < fold.0.len() ==> final(w).entries@[old(w).entries@.len() + j]
                            == spawned_bullet_entry(fold.0[j], (old(w).next_id + j) as u64))))
            }),
{
    let ghost s0 = w.entries@;
    let ghost rs0 = rng.state;
    let ghost cues0 = cues@;
    let pk_opt = find_first_aim_player(w);
    let pk = match pk_opt {
        Some(pk) => pk,
        None => {
            return;
        },
    };
    let target = w.get(pk).c.transform.as_ref().unwrap().position;
    proof {
        assert forall|pk2: int| #[trigger] first_aim_player_at(s0, pk2) implies pk2 == pk as int by {
            if pk2 < pk as int {
                assert(!is_aim_player(s0[pk2]));
            }
            if pk2 > pk as int {
                assert(!is_aim_player(s0[pk as int]));
            }
        };
    }
    let mut bullets: Vec<SpawnBullet> = Vec::new();
    let mut src: Vec<Entry> = Vec::new();
    core::mem::swap(&mut src, &mut w.entries);
    let mut out: Vec<Entry> = Vec::new();
    proof {
        assert(bullets@ =~= boss_pass_out(s0.subrange(0, 0), target, dt as int, rs0).0);
        assert(cues@ =~= cues0 + boss_pass_out(s0.subrange(0, 0), target, dt as int, rs0).1);
    }
    while src.len() > 0
        invariant
            out@.len() + src@.len() == s0.len(),
            src@ == s0.subrange(out@.len() as int, s0.len() as int),
            forall|k: int|
                0 <= k < out@.len() ==> if is_attacking_boss(#[trigger] s0[k]) {
                    boss_entry_rel(s0[k], dt as int, out@[k])
                } else {
                    out@[k] == s0[k]
                },
            forall|k: int| 0 <= k < out@.len() ==> #[trigger] out@[k].id == s0[k].id,
            forall|k: int| 0 <= k < out@.len() ==> comps_in_fx(#[trigger] out@[k].c),
            crate::world::ids_sorted(s0),
            forall|k: int| 0 <= k < s0.len() ==> comps_in_fx(#[trigger] s0[k].c),
            forall|k: int| 0 <= k < s0.len() ==> #[trigger] s0[k].id < old(w).next_id,
            forall|m: int| 0 <= m < bullets@.len() ==> bullet_in_fx(#[trigger] bullets@[m]),
            in_fx(dt as int),
            rng_wf(*rng),
            crate::cpx::cpx_in_fx(target),
            bullets@ =~= boss_pass_out(s0.subrange(0, out@.len() as int), target, dt as int,
                rs0).0,
            cues@ =~= cues0 + boss_pass_out(s0.subrange(0, out@.len() as int), target,
                dt as int, rs0).1,
            rng.state == boss_pass_out(s0.subrange(0, out@.len() as int), target, dt as int,
                rs0).2,
        decreases src@.len(),
    {
        let ghost done = out@.len() as int;
        let ghost pre = boss_pass_out(s0.subrange(0, done), target, dt as int, rs0);
        let e = src.remove(0);
        proof {
            assert(e == s0[done]);
            assert(src@ =~= s0.subrange(done + 1, s0.len() as int));
            assert(s0.subrange(0, done + 1).subrange(0, done) =~= s0.subrange(0, done));
            assert(s0.subrange(0, done + 1)[done] == s0[done]);
        }
        if e.c.boss && e.c.enemy && e.c.transform.is_some() && e.c.boss_moves.is_some() {
            let ghost b0 = bullets@;
            let ghost c0 = cues@;
            let e2 = boss_attack_entry(e, target, dt, rng, &mut bullets, cues);
            out.push(e2);
            proof {
                assert forall|mm: int| 0 <= mm < bullets@.len() implies bullet_in_fx(
                    #[trigger] bullets@[mm]) by {
                    if mm < b0.len() {
                        assert(bullets@[mm] == bullets@.subrange(0, b0.len() as int)[mm]);
                        assert(bullets@[mm] == b0[mm]);
                    }
                };
                let st = boss_step_out(s0[done], target, dt as int, pre.2);
                assert(bullets@ =~= b0 + st.0);
                assert(cues@ =~= c0 + st.1);
                assert(bullets@ =~= boss_pass_out(s0.subrange(0, done + 1), target, dt as int,
                    rs0).0);
                assert(cues@ =~= cues0 + boss_pass_out(s0.subrange(0, done + 1), target,
                    dt as int, rs0).1);
            }
        } else {
            out.push(e);
            proof {
                assert(bullets@ =~= boss_pass_out(s0.subrange(0, done + 1), target, dt as int,
                    rs0).0);
                assert(cues@ =~= cues0 + boss_pass_out(s0.subrange(0, done + 1), target,
                    dt as int, rs0).1);
            }
        }
    }
    w.entries = out;
    proof {
        assert(forall|i: int, j: int|
            0 <= i < j < w.entries@.len() ==> #[trigger] w.entries@[i].id
                < #[trigger] w.entries@[j].id);
        assert(world_wf(*w));
        assert(s0.subrange(0, s0.len() as int) =~= s0);
    }
    let ghost fold = boss_pass_out(s0, target, dt as int, rs0);
    let mut m: usize = 0;
    let ghost evolved = w.entries@;
    while m < bullets.len()
        invariant
            world_wf(*w),
            0 <= m <= bullets@.len(),
            w.entries@.len() >= evolved.len(),
            w.entries@.subrange(0, evolved.len() as int) =~= evolved,
            forall|mm: int| 0 <= mm < bullets@.len() ==> bullet_in_fx(#[trigger] bullets@[mm]),
            forall|j: int|
                evolved.len() <= j < w.entries@.len() ==> ({
                    let c = (#[trigger] w.entries@[j]).c;
                    c.enemy && c.bullet && c.die_offscreen
                }),
            old(w).next_id as int + bullets@.len() <= 0xffff_ffff_ffff_fffe ==> (
            w.next_id == old(w).next_id + m && w.entries@.len() == evolved.len() + m && (
            forall|j: int|
                0 <= j < m ==> w.entries@[evolved.len() + j] == spawned_bullet_entry(
                    bullets@[j], (old(w).next_id + j) as u64))),
        decreases bullets@.len() - m,
    {
        let b = bullets[m];
        if w.next_id < 0xffff_ffff_ffff_fffe {
            crate::entity::create_enemy_bullet(w, b.transform, b.sprite, b.movement, b.hitbox);
        }
        proof {
            assert(w.entries@.subrange(0, evolved.len() as int) =~= evolved);
            if old(w).next_id as int + bullets@.len() <= 0xffff_ffff_ffff_fffe {
                assert(b == (SpawnBullet {
                    transform: b.transform,
                    sprite: b.sprite,
                    movement: b.movement,
                    hitbox: b.hitbox,
                }));
            }
        }
        m = m + 1;
    }
    proof {
        assert(evolved.len() == s0.len());
        assert(bullets@ =~= fold.0);
        assert(cues@ =~= cues0 + fold.1);
    }
}

} // verus!
