//! Collision resolution.
//!
//! Two passes run each frame, snapshotting before mutating. First the
//! player against enemy bullets: the first overlapping bullet while the
//! player is vulnerable costs a life, despawns the bullet, resets the player
//! to the spawn point and opens a two-second invulnerability window. Then
//! player bullets against bosses: each hit despawns the bullet and damages
//! both the boss entity and the active phase's own budget; a spent phase is
//! popped, and a boss left with no phases is despawned.

use vstd::prelude::*;
use crate::attack::{bm_attack, bm_hp, bm_same_kind, bm_timeout, BossMove, BossMoves};
use crate::components::{circles_intersect_spec, CircleHitbox, Hitpoint, Transform2D};
use crate::cpx::Cpx;
use crate::fx::{fx_sub_spec, in_fx};
use crate::score::ScoreData;
use crate::systems::Cue;
use crate::world::{comps_in_fx, has_id, world_wf, Components, Entry, World};

verus! {

/// The fixed point the player respawns at after a hit.
pub open spec fn respawn_point() -> Cpx {
    Cpx { re: 150_000, im: 400_000 }
}

/// Seconds of immunity granted after a hit.
pub open spec fn invuln_window() -> int {
    2_000
}

/// A controllable player with a place and a hitbox.
pub open spec fn is_pc_player(e: Entry) -> bool {
    e.c.player && e.c.controllable && e.c.transform is Some && e.c.hitbox is Some
}

/// `k` is the position of the first controllable player.
pub open spec fn first_player_at(s: Seq<Entry>, k: int) -> bool {
    0 <= k < s.len() && is_pc_player(s[k]) && forall|j: int|
        0 <= j < k ==> !is_pc_player(#[trigger] s[j])
}

/// An enemy bullet with a place and a hitbox.
pub open spec fn is_enemy_bullet(e: Entry) -> bool {
    e.c.enemy && e.c.bullet && e.c.transform is Some && e.c.hitbox is Some
}

/// An enemy bullet overlapping the player's hitbox.
pub open spec fn bullet_hits(e: Entry, pt: Transform2D, ph: CircleHitbox) -> bool {
    is_enemy_bullet(e) && circles_intersect_spec(pt, ph, e.c.transform->0, e.c.hitbox->0)
}

/// `k` is the position of the first enemy bullet overlapping the player.
pub open spec fn first_hit_at(s: Seq<Entry>, k: int, pt: Transform2D, ph: CircleHitbox) -> bool {
    0 <= k < s.len() && bullet_hits(s[k], pt, ph) && forall|j: int|
        0 <= j < k ==> !bullet_hits(#[trigger] s[j], pt, ph)
}

/// The player entry after a hit: moved to the respawn point, granted the
/// invulnerability window, all else untouched.
pub open spec fn hit_player_entry(e: Entry) -> Entry {
    Entry {
        id: e.id,
        c: Components {
            transform: Some(
                Transform2D { position: respawn_point(), ..e.c.transform->0 },
            ),
            invulnerable_delay: Some(invuln_window() as i64),
            ..e.c
        },
    }
}

/// Some enemy bullet overlaps a vulnerable player.
pub open spec fn player_gets_hit(s: Seq<Entry>) -> bool {
    exists|pk: int, bk: int|
        {
            &&& #[trigger] first_player_at(s, pk)
            &&& s[pk].c.invulnerable_delay is None
            &&& 0 <= bk < s.len()
            &&& #[trigger] bullet_hits(s[bk], s[pk].c.transform->0, s[pk].c.hitbox->0)
        }
}

/// Resolve the player against enemy bullets. While the player is
/// vulnerable, the first overlapping enemy bullet despawns, the player
/// loses one life, is reset to the respawn point and becomes invulnerable
/// for the fixed window; further overlaps in the same pass are ignored,
/// and an invulnerable player ignores every bullet.
pub fn collide_player_with_bullets(w: &mut World, score: &mut ScoreData, cues: &mut Vec<Cue>)
    requires
        world_wf(*old(w)),
        old(score).life > -100,
    ensures
        world_wf(*final(w)),
        final(w).next_id == old(w).next_id,
        *final(score) == if player_gets_hit(old(w).entries@) {
            ScoreData { life: (old(score).life - 1) as i8, ..*old(score) }
        } else {
            *old(score)
        },
        !player_gets_hit(old(w).entries@) ==> *final(w) == *old(w) && final(cues)@
            == old(cues)@,
        player_gets_hit(old(w).entries@) ==> final(cues)@ == old(cues)@.push(Cue::PlayerHit),
        forall|pk: int, bk: int|
            {
                &&& #[trigger] first_player_at(old(w).entries@, pk)
                &&& old(w).entries@[pk].c.invulnerable_delay is None
                &&& #[trigger] first_hit_at(old(w).entries@, bk,
                    old(w).entries@[pk].c.transform->0, old(w).entries@[pk].c.hitbox->0)
            } ==> final(w).entries@ =~= old(w).entries@.update(
                pk,
                hit_player_entry(old(w).entries@[pk]),
            ).remove(bk),
{
    let ghost s0 = w.entries@;
    let pk_opt = find_first_player(w);
    let pk = match pk_opt {
        Some(pk) => pk,
        None => {
            proof {
                assert(!player_gets_hit(s0));
            }
            return;
        },
    };
    let pe = w.get(pk);
    let pt = *pe.c.transform.as_ref().unwrap();
    let ph = *pe.c.hitbox.as_ref().unwrap();
    let vulnerable = pe.c.invulnerable_delay.is_none();
    proof {
        assert(comps_in_fx(s0[pk as int].c));
        assert forall|pk2: int| #[trigger] first_player_at(s0, pk2) implies pk2 == pk as int by {
            if pk2 < pk as int {
                assert(!is_pc_player(s0[pk2]));
            }
            if pk2 > pk as int {
                assert(!is_pc_player(s0[pk as int]));
            }
        };
    }
    let bk_opt = find_first_hit(w, pt, ph);
    let bk = match bk_opt {
        Some(bk) => bk,
        None => {
            proof {
                assert(!player_gets_hit(s0));
            }
            return;
        },
    };
    if !vulnerable {
        proof {
            assert(!player_gets_hit(s0));
        }
        return;
    }
    proof {
        assert forall|bk2: int| #[trigger] first_hit_at(s0, bk2, pt, ph) implies bk2
            == bk as int by {
            if bk2 < bk as int {
                assert(!bullet_hits(s0[bk2], pt, ph));
            }
            if bk2 > bk as int {
                assert(!bullet_hits(s0[bk as int], pt, ph));
            }
        };
        assert(player_gets_hit(s0));
    }
    let mut e = w.take_at(pk);
    let et = *e.c.transform.as_ref().unwrap();
    e.c.transform = Some(Transform2D {
        position: Cpx::new(150_000, 400_000),
        scale: et.scale,
        rotation: et.rotation,
    });
    e.c.invulnerable_delay = Some(2_000);
    proof {
        assert(e == hit_player_entry(s0[pk as int]));
    }
    w.put_at(pk, e);
    proof {
        assert(w.entries@ =~= s0.update(pk as int, hit_player_entry(s0[pk as int])));
    }
    w.remove_at(bk);
    score.life = score.life - 1;
    cues.push(Cue::PlayerHit);
}

/// Position of the first controllable player, if any.
pub fn find_first_player(w: &World) -> (r: Option<usize>)
    ensures
        match r {
            Some(k) => first_player_at(w.entries@, k as int),
            None => forall|j: int|
                0 <= j < w.entries@.len() ==> !is_pc_player(#[trigger] w.entries@[j]),
        },
{
    let n = w.len();
    let mut k: usize = 0;
    while k < n
        invariant
            n == w.entries@.len(),
            0 <= k <= n,
            forall|j: int| 0 <= j < k ==> !is_pc_player(#[trigger] w.entries@[j]),
        decreases n - k,
    {
        let e = w.get(k);
        if e.c.player && e.c.controllable && e.c.transform.is_some() && e.c.hitbox.is_some() {
            return Some(k);
        }
        k = k + 1;
    }
    None
}

/// Position of the first enemy bullet overlapping the given hitbox, if any.
fn find_first_hit(w: &World, pt: Transform2D, ph: CircleHitbox) -> (r: Option<usize>)
    requires
        world_wf(*w),
        crate::components::transform_in_fx(pt),
        crate::components::hitbox_in_fx(ph),
    ensures
        match r {
            Some(k) => first_hit_at(w.entries@, k as int, pt, ph),
            None => forall|j: int|
                0 <= j < w.entries@.len() ==> !bullet_hits(#[trigger] w.entries@[j], pt, ph),
        },
{
    let n = w.len();
    let mut k: usize = 0;
    while k < n
        invariant
            world_wf(*w),
            n == w.entries@.len(),
            0 <= k <= n,
            crate::components::transform_in_fx(pt),
            crate::components::hitbox_in_fx(ph),
            forall|j: int| 0 <= j < k ==> !bullet_hits(#[trigger] w.entries@[j], pt, ph),
        decreases n - k,
    {
        let e = w.get(k);
        if e.c.enemy && e.c.bullet && e.c.transform.is_some() && e.c.hitbox.is_some() {
            let bt = *e.c.transform.as_ref().unwrap();
            let bh = *e.c.hitbox.as_ref().unwrap();
            if ph.is_intersect(&pt, &bt, &bh) {
                return Some(k);
            }
        }
        k = k + 1;
    }
    None
}

/// A phase after taking damage: same kind, timeout and pattern, the budget
/// reduced unless it ignores damage.
pub open spec fn phase_damaged(p: BossMove, dmg: int, p2: BossMove) -> bool {
    &&& bm_same_kind(p, p2)
    &&& bm_timeout(p2) == bm_timeout(p)
    &&& bm_attack(p2) == bm_attack(p)
    &&& bm_hp(p2) == if bm_hp(p).invulnerable {
        bm_hp(p)
    } else {
        Hitpoint { hp: fx_sub_spec(bm_hp(p).hp as int, dmg) as i64, ..bm_hp(p) }
    }
}

/// Whether this damage spends the phase's budget: it falls to zero or below.
pub open spec fn phase_spent(p: BossMove, dmg: int) -> bool {
    !bm_hp(p).invulnerable && fx_sub_spec(bm_hp(p).hp as int, dmg) <= 0
}

/// The boss entity's own hit points after a bullet: reduced if a hit-point
/// record is attached and does not ignore damage.
pub open spec fn boss_hp_damaged(c: Components, dmg: int) -> Option<Hitpoint> {
    if c.hitpoint is Some {
        let h = c.hitpoint->0;
        if h.invulnerable {
            Some(h)
        } else {
            Some(Hitpoint { hp: fx_sub_spec(h.hp as int, dmg) as i64, ..h })
        }
    } else {
        c.hitpoint
    }
}

/// A player bullet with a place, a hitbox and a damage value.
pub open spec fn is_player_bullet(e: Entry) -> bool {
    e.c.player && e.c.bullet && e.c.transform is Some && e.c.hitbox is Some
        && e.c.damage is Some
}

/// A boss with a place and a hitbox.
pub open spec fn is_boss_entry(e: Entry) -> bool {
    e.c.boss && e.c.enemy && e.c.transform is Some && e.c.hitbox is Some
}

/// Whether some position holds exactly this entry.
pub open spec fn has_entry(s: Seq<Entry>, e: Entry) -> bool {
    exists|i: int| 0 <= i < s.len() && #[trigger] s[i] == e
}

/// Removing a position keeps every other entry present and brings no
/// identifier in.
proof fn lemma_remove_keeps(s: Seq<Entry>, k: int)
    requires
        0 <= k < s.len(),
    ensures
        forall|j: int| 0 <= j < s.len() && j != k ==> has_entry(s.remove(k), #[trigger] s[j]),
        forall|x: u64| #[trigger] has_id(s.remove(k), x) ==> has_id(s, x),
{
    assert forall|j: int| 0 <= j < s.len() && j != k implies has_entry(s.remove(k), s[j]) by {
        if j < k {
            assert(s.remove(k)[j] == s[j]);
        } else {
            assert(s.remove(k)[j - 1] == s[j]);
        }
    };
    assert forall|x: u64| has_id(s.remove(k), x) implies has_id(s, x) by {
        let i = choose|i: int| 0 <= i < s.remove(k).len() && #[trigger] s.remove(k)[i].id == x;
        if i < k {
            assert(s[i].id == x);
        } else {
            assert(s[i + 1].id == x);
        }
    };
}

/// Inserting keeps every entry of the base present and brings only the
/// inserted identifier in.
proof fn lemma_insert_keeps(s: Seq<Entry>, k: int, e: Entry)
    requires
        0 <= k <= s.len(),
    ensures
        forall|j: int| 0 <= j < s.len() ==> has_entry(s.insert(k, e), #[trigger] s[j]),
        forall|x: u64| #[trigger] has_id(s.insert(k, e), x) ==> has_id(s, x) || x == e.id,
{
    assert forall|j: int| 0 <= j < s.len() implies has_entry(s.insert(k, e), s[j]) by {
        if j < k {
            assert(s.insert(k, e)[j] == s[j]);
        } else {
            assert(s.insert(k, e)[j + 1] == s[j]);
        }
    };
    assert forall|x: u64| has_id(s.insert(k, e), x) implies has_id(s, x) || x == e.id by {
        let i = choose|i: int| 0 <= i < s.insert(k, e).len() && #[trigger] s.insert(k, e)[i].id
            == x;
        if i < k {
            assert(s[i].id == x);
        } else if i > k {
            assert(s[i - 1].id == x);
        }
    };
}

/// After the bullet was despawned and the boss taken out, every entry with
/// another identifier is still present, no identifier came in, and the boss
/// was in the store.
proof fn lemma_hit_removal(
    s0: Seq<Entry>,
    s1: Seq<Entry>,
    s2: Seq<Entry>,
    bk: Option<usize>,
    bi: int,
    bullet_id: u64,
    boss_id: u64,
)
    requires
        crate::world::ids_sorted(s0),
        match bk {
            Some(k) => k < s0.len() && s0[k as int].id == bullet_id && s1 == s0.remove(k as int),
            None => s1 == s0,
        },
        0 <= bi < s1.len(),
        s1[bi].id == boss_id,
        s2 == s1.remove(bi),
        bullet_id != boss_id,
    ensures
        forall|x: u64| #[trigger] has_id(s2, x) ==> has_id(s0, x),
        forall|k: int|
            0 <= k < s0.len() && (#[trigger] s0[k]).id != bullet_id && s0[k].id != boss_id
                ==> has_entry(s2, s0[k]),
        has_id(s0, boss_id),
{
    lemma_remove_keeps(s1, bi);
    match bk {
        Some(k) => {
            lemma_remove_keeps(s0, k as int);
        },
        None => {},
    }
    assert forall|k: int|
        0 <= k < s0.len() && (#[trigger] s0[k]).id != bullet_id && s0[k].id != boss_id implies
        has_entry(s2, s0[k]) by {
        assert(has_entry(s1, s0[k])) by {
            match bk {
                Some(kk) => {
                    assert(k != kk as int);
                },
                None => {
                    assert(s1[k] == s0[k]);
                },
            }
        };
        let j1 = choose|j: int| 0 <= j < s1.len() && #[trigger] s1[j] == s0[k];
        assert(j1 != bi);
        assert(has_entry(s2, s1[j1]));
    };
    assert(has_id(s0, boss_id)) by {
        match bk {
            Some(k) => {
                if bi < k as int {
                    assert(s0[bi].id == boss_id);
                } else {
                    assert(s0[bi + 1].id == boss_id);
                }
            },
            None => {},
        }
    };
}

/// Putting the boss back after the removals keeps every uninvolved entry of
/// the snapshot present and brings no identifier in.
proof fn lemma_put_back(
    s0: Seq<Entry>,
    s2: Seq<Entry>,
    s3: Seq<Entry>,
    bi: int,
    e: Entry,
    bullet_id: u64,
    boss_id: u64,
)
    requires
        0 <= bi <= s2.len(),
        s3 == s2.insert(bi, e),
        e.id == boss_id,
        has_id(s0, boss_id),
        forall|x: u64| #[trigger] has_id(s2, x) ==> has_id(s0, x),
        forall|k: int|
            0 <= k < s0.len() && (#[trigger] s0[k]).id != bullet_id && s0[k].id != boss_id
                ==> has_entry(s2, s0[k]),
    ensures
        forall|x: u64| #[trigger] has_id(s3, x) ==> has_id(s0, x),
        forall|k: int|
            0 <= k < s0.len() && (#[trigger] s0[k]).id != bullet_id && s0[k].id != boss_id
                ==> has_entry(s3, s0[k]),
{
    lemma_insert_keeps(s2, bi, e);
    assert forall|k: int|
        0 <= k < s0.len() && (#[trigger] s0[k]).id != bullet_id && s0[k].id != boss_id implies
        has_entry(s3, s0[k]) by {
        assert(has_entry(s2, s0[k]));
        let j2 = choose|j: int| 0 <= j < s2.len() && #[trigger] s2[j] == s0[k];
        assert(has_entry(s3, s2[j2]));
    };
}

/// Two positions holding the same identifier are the same position.
proof fn lemma_id_unique(s: Seq<Entry>, i: int, j: int)
    requires
        crate::world::ids_sorted(s),
        0 <= i < s.len(),
        0 <= j < s.len(),
        s[i].id == s[j].id,
    ensures
        i == j,
{
    if i < j {
        assert(s[i].id < s[j].id);
    }
    if j < i {
        assert(s[j].id < s[i].id);
    }
}

/// Apply one player-bullet hit on one boss, both named by identifier. The
/// bullet despawns. The boss entity's own hit points and the front phase's
/// budget each take the damage; a spent phase pops with a phase-end cue,
/// and a boss with no phase left — whether the pop emptied the queue or it
/// was empty already — despawns.
#[verifier::rlimit(100)]
#[verifier::spinoff_prover]
pub fn apply_bullet_boss_hit(
    w: &mut World,
    bullet_id: u64,
    dmg: i64,
    boss_id: u64,
    cues: &mut Vec<Cue>,
)
    requires
        world_wf(*old(w)),
        in_fx(dmg as int),
        bullet_id != boss_id,
    ensures
        world_wf(*final(w)),
        final(w).next_id == old(w).next_id,
        !has_id(final(w).entries@, bullet_id),
        forall|bi: int|
            (0 <= bi < old(w).entries@.len() && #[trigger] old(w).entries@[bi].id
                == boss_id) ==> boss_outcome_ok(old(w).entries@[bi].c, dmg as int,
                final(w).entries@, boss_id, old(cues)@, final(cues)@),
        (!has_id(old(w).entries@, boss_id)) ==> final(cues)@ == old(cues)@,
        forall|x: u64| #[trigger] has_id(final(w).entries@, x) ==> has_id(old(w).entries@, x),
        forall|k: int|
            0 <= k < old(w).entries@.len() && (#[trigger] old(w).entries@[k]).id != bullet_id
                && old(w).entries@[k].id != boss_id ==> has_entry(final(w).entries@,
                old(w).entries@[k]),
{
    let ghost s0 = w.entries@;
    let rem = w.despawn(bullet_id);
    let ghost s1 = w.entries@;
    proof {
        // The boss, if it was in the store, is still there with the same
        // components, at a possibly shifted position.
        assert forall|bi: int|
            (0 <= bi < s0.len() && #[trigger] s0[bi].id == boss_id) implies has_id(s1, boss_id)
            by {
            match rem {
                Some(bk) => {
                    assert(s1 == s0.remove(bk as int));
                    if bi < bk as int {
                        assert(s1[bi].id == boss_id);
                    } else {
                        assert(s0[bi].id != bullet_id);
                        assert(bi != bk as int);
                        assert(s1[bi - 1].id == boss_id);
                    }
                },
                None => {
                    assert(s1 == s0);
                    assert(s1[bi].id == boss_id);
                },
            }
        };
        assert forall|j: int| 0 <= j < s1.len() implies #[trigger] s1[j].id != bullet_id by {
            match rem {
                Some(bk) => {
                    if j < bk as int {
                        if s0[j].id == bullet_id {
                            lemma_id_unique(s0, j, bk as int);
                        }
                    } else {
                        if s0[j + 1].id == bullet_id {
                            lemma_id_unique(s0, j + 1, bk as int);
                        }
                    }
                },
                None => {},
            }
        };
    }
    let bi_opt = w.find(boss_id);
    let bi = match bi_opt {
        Some(bi) => bi,
        None => {
            proof {
                match rem {
                    Some(bk) => {
                        lemma_remove_keeps(s0, bk as int);
                        assert forall|k: int|
                            0 <= k < s0.len() && (#[trigger] s0[k]).id != bullet_id
                                && s0[k].id != boss_id implies has_entry(s1, s0[k]) by {
                            assert(k != bk as int);
                        };
                    },
                    None => {
                        assert forall|k: int|
                            0 <= k < s0.len() && (#[trigger] s0[k]).id != bullet_id
                                && s0[k].id != boss_id implies has_entry(s1, s0[k]) by {
                            assert(s1[k] == s0[k]);
                        };
                    },
                }
            }
            return;
        },
    };
    proof {
        // The entry at the found position is the old boss entry.
        assert forall|bi0: int|
            (0 <= bi0 < s0.len() && #[trigger] s0[bi0].id == boss_id) implies s1[bi as int]
            == s0[bi0] by {
            match rem {
                Some(bk) => {
                    if bi0 < bk as int {
                        lemma_id_unique(s1, bi as int, bi0);
                    } else {
                        assert(s0[bi0].id != bullet_id);
                        assert(bi0 != bk as int);
                        assert(s1[bi0 - 1] == s0[bi0]);
                        lemma_id_unique(s1, bi as int, bi0 - 1);
                    }
                },
                None => {
                    lemma_id_unique(s1, bi as int, bi0);
                },
            }
        };
    }
    let mut e = w.take_at(bi);
    let ghost s2 = w.entries@;
    proof {
        assert forall|j: int| 0 <= j < s2.len() implies #[trigger] s2[j].id != boss_id by {
            if j < bi as int {
                if s1[j].id == boss_id {
                    lemma_id_unique(s1, j, bi as int);
                }
            } else {
                if s1[j + 1].id == boss_id {
                    lemma_id_unique(s1, j + 1, bi as int);
                }
            }
        };
        assert(!has_id(s2, boss_id));
        assert forall|j: int| 0 <= j < s2.len() implies #[trigger] s2[j].id != bullet_id by {
            if j < bi as int {
            } else {
                assert(s2[j] == s1[j + 1]);
            }
        };
        lemma_hit_removal(s0, s1, s2, rem, bi as int, bullet_id, boss_id);
    }
    let ghost c_old = e.c;
    if e.c.hitpoint.is_some() {
        let mut h = *e.c.hitpoint.as_ref().unwrap();
        h.damage(dmg);
        e.c.hitpoint = Some(h);
    }
    proof {
        assert(e.c.hitpoint == boss_hp_damaged(c_old, dmg as int));
    }
    let mut q_opt: Option<BossMoves> = None;
    core::mem::swap(&mut q_opt, &mut e.c.boss_moves);
    match q_opt {
        Some(mut q) => {
            if q.0.len() == 0 {
                // No phase left: the boss despawns with the hit.
                return;
            }
            let ghost qv = q.0@;
            let mut front = q.0.remove(0);
            let lethal = front.damage(dmg);
            proof {
                assert(phase_damaged(qv[0], dmg as int, front));
                assert(lethal == phase_spent(qv[0], dmg as int));
            }
            if lethal {
                cues.push(Cue::PhaseEnd);
                if q.0.len() == 0 {
                    // Last phase spent: the boss despawns.
                    return;
                }
                e.c.boss_moves = Some(q);
                let ghost eg = e;
                w.put_at(bi, e);
                proof {
                    lemma_after_put(s1, s2, w.entries@, bi as int, boss_id, bullet_id);
                    lemma_put_back(s0, s2, w.entries@, bi as int, eg, bullet_id, boss_id);
                    assert(w.entries@[bi as int].id == boss_id);
                    assert(has_id(w.entries@, boss_id));
                }
            } else {
                q.0.insert(0, front);
                proof {
                    assert(q.0@ =~= qv.update(0, front));
                    assert(q.0@.subrange(1, qv.len() as int)
                        =~= qv.subrange(1, qv.len() as int));
                }
                e.c.boss_moves = Some(q);
                let ghost eg = e;
                w.put_at(bi, e);
                proof {
                    lemma_after_put(s1, s2, w.entries@, bi as int, boss_id, bullet_id);
                    lemma_put_back(s0, s2, w.entries@, bi as int, eg, bullet_id, boss_id);
                    assert(w.entries@[bi as int].id == boss_id);
                    assert(has_id(w.entries@, boss_id));
                }
            }
        },
        None => {
            // No choreography at all: treated as an empty queue.
            return;
        },
    }
}

/// After putting the boss back where it was taken from, it is the only
/// holder of its identifier and the bullet is still gone.
proof fn lemma_after_put(s1: Seq<Entry>, s2: Seq<Entry>, s3: Seq<Entry>, bi: int, boss_id: u64,
    bullet_id: u64)
    requires
        0 <= bi < s1.len(),
        s1[bi].id == boss_id,
        s2 == s1.remove(bi),
        0 <= bi <= s2.len(),
        s3.len() == s2.len() + 1,
        s3[bi].id == boss_id,
        forall|j: int| 0 <= j < s2.len() ==> #[trigger] s2[j].id != boss_id,
        forall|j: int| 0 <= j < s2.len() ==> #[trigger] s2[j].id != bullet_id,
        s3 == s2.insert(bi, s3[bi]),
        boss_id != bullet_id,
        crate::world::ids_sorted(s3),
    ensures
        forall|j: int| 0 <= j < s3.len() ==> (#[trigger] s3[j].id == boss_id <==> j == bi),
        !has_id(s3, bullet_id),
{
    assert forall|j: int| 0 <= j < s3.len() implies (#[trigger] s3[j].id == boss_id <==> j
        == bi) by {
        if j < bi {
            assert(s3[j] == s2[j]);
        }
        if j > bi {
            assert(s3[j] == s2[j - 1]);
        }
    };
    assert forall|j: int| 0 <= j < s3.len() implies #[trigger] s3[j].id != bullet_id by {
        if j < bi {
            assert(s3[j] == s2[j]);
        }
        if j > bi {
            assert(s3[j] == s2[j - 1]);
        }
    };
}
/// What one bullet does to the boss named `boss_id`, given the boss's old
/// components: the store afterwards holds the damaged boss — its front
/// phase's budget reduced, a spent front popped with a phase-end cue — or no
/// longer holds the boss at all once no phase remains.
pub open spec fn boss_outcome_ok(
    c: Components,
    dmg: int,
    after: Seq<Entry>,
    boss_id: u64,
    cues0: Seq<Cue>,
    cues1: Seq<Cue>,
) -> bool {
    if c.boss_moves is Some && (c.boss_moves->0).0@.len() > 0 {
        let q = (c.boss_moves->0).0@;
        let front = q[0];
        if phase_spent(front, dmg) {
            if q.len() == 1 {
                !has_id(after, boss_id) && cues1 == cues0.push(Cue::PhaseEnd)
            } else {
                cues1 == cues0.push(Cue::PhaseEnd) && has_id(after, boss_id) && forall|fi: int|
                    (0 <= fi < after.len() && #[trigger] after[fi].id == boss_id) ==> ({
                        let c2 = after[fi].c;
                        &&& c2.hitpoint == boss_hp_damaged(c, dmg)
                        &&& c2.boss_moves is Some
                        &&& (c2.boss_moves->0).0@ =~= q.subrange(1, q.len() as int)
                        &&& c2 == (Components {
                            hitpoint: c2.hitpoint,
                            boss_moves: c2.boss_moves,
                            ..c
                        })
                    })
            }
        } else {
            cues1 == cues0 && has_id(after, boss_id) && forall|fi: int|
                (0 <= fi < after.len() && #[trigger] after[fi].id == boss_id) ==> ({
                    let c2 = after[fi].c;
                    &&& c2.hitpoint == boss_hp_damaged(c, dmg)
                    &&& c2.boss_moves is Some
                    &&& (c2.boss_moves->0).0@.len() == q.len()
                    &&& phase_damaged(front, dmg, (c2.boss_moves->0).0@[0])
                    &&& (c2.boss_moves->0).0@.subrange(1, q.len() as int) =~= q.subrange(
                        1,
                        q.len() as int,
                    )
                    &&& c2 == (Components {
                        hitpoint: c2.hitpoint,
                        boss_moves: c2.boss_moves,
                        ..c
                    })
                })
        }
    } else {
        // No phase: the boss despawns with the hit.
        !has_id(after, boss_id) && cues1 == cues0
    }
}

/// A boss's tracked state through the pass: its own hit points and its
/// phase queue's contents, or nothing once it has despawned.
pub open spec fn boss_state0(c: Components) -> Option<(Option<Hitpoint>, Option<Seq<BossMove>>)> {
    Some(
        (
            c.hitpoint,
            if c.boss_moves is Some {
                Some((c.boss_moves->0).0@)
            } else {
                None::<Seq<BossMove>>
            },
        ),
    )
}

/// A hit-point record after one bullet, where one is attached and does not
/// ignore damage.
pub open spec fn hp_after_damage(h: Option<Hitpoint>, dmg: int) -> Option<Hitpoint> {
    match h {
        Some(hp) => if hp.invulnerable {
            Some(hp)
        } else {
            Some(Hitpoint { hp: fx_sub_spec(hp.hp as int, dmg) as i64, ..hp })
        },
        None => None,
    }
}

/// A phase after one bullet: the same phase with its budget reduced unless
/// it ignores damage.
pub open spec fn phase_after_damage(p: BossMove, dmg: int) -> BossMove {
    let h = bm_hp(p);
    let h2 = if h.invulnerable {
        h
    } else {
        Hitpoint { hp: fx_sub_spec(h.hp as int, dmg) as i64, ..h }
    };
    match p {
        BossMove::NonSpells { timeout, hp, attack } => BossMove::NonSpells {
            timeout,
            hp: h2,
            attack,
        },
        BossMove::Spells { name, timeout, hp, attack } => BossMove::Spells {
            name,
            timeout,
            hp: h2,
            attack,
        },
    }
}

/// One bullet applied to a boss's tracked state: an absent boss and one
/// without a phase despawn (stay `None`); otherwise the hit points and the
/// front phase's budget both take the damage, and a spent front pops —
/// despawning the boss when it was the last.
pub open spec fn boss_step(
    st: Option<(Option<Hitpoint>, Option<Seq<BossMove>>)>,
    dmg: int,
) -> Option<(Option<Hitpoint>, Option<Seq<BossMove>>)> {
    match st {
        None => None,
        Some(p) => match p.1 {
            None => None,
            Some(q) => if q.len() == 0 {
                None
            } else {
                let h2 = hp_after_damage(p.0, dmg);
                if phase_spent(q[0], dmg) {
                    if q.len() == 1 {
                        None
                    } else {
                        Some((h2, Some(q.subrange(1, q.len() as int))))
                    }
                } else {
                    Some((h2, Some(q.update(0, phase_after_damage(q[0], dmg)))))
                }
            },
        },
    }
}

/// A boss's tracked state after a list of bullet damages, applied in order.
pub open spec fn boss_fold(
    st: Option<(Option<Hitpoint>, Option<Seq<BossMove>>)>,
    dmgs: Seq<int>,
) -> Option<(Option<Hitpoint>, Option<Seq<BossMove>>)>
    decreases dmgs.len(),
{
    if dmgs.len() == 0 {
        st
    } else {
        boss_step(boss_fold(st, dmgs.subrange(0, dmgs.len() - 1)), dmgs[dmgs.len() - 1])
    }
}

/// Whether one bullet pops the tracked state's front phase, sounding the
/// phase-end cue.
pub open spec fn step_pops(
    st: Option<(Option<Hitpoint>, Option<Seq<BossMove>>)>,
    dmg: int,
) -> nat {
    match st {
        Some(p) => match p.1 {
            Some(q) => if q.len() > 0 && phase_spent(q[0], dmg) {
                1
            } else {
                0
            },
            None => 0,
        },
        None => 0,
    }
}

/// How many phase-end cues a list of bullet damages sounds on one boss.
pub open spec fn fold_pops(
    st: Option<(Option<Hitpoint>, Option<Seq<BossMove>>)>,
    dmgs: Seq<int>,
) -> nat
    decreases dmgs.len(),
{
    if dmgs.len() == 0 {
        0
    } else {
        fold_pops(st, dmgs.subrange(0, dmgs.len() - 1)) + step_pops(
            boss_fold(st, dmgs.subrange(0, dmgs.len() - 1)),
            dmgs[dmgs.len() - 1],
        )
    }
}

/// The snapshot tuples of the player bullets of a store, in store order.
pub open spec fn bullets_of(s: Seq<Entry>) -> Seq<(u64, Transform2D, CircleHitbox, i64)>
    decreases s.len(),
{
    if s.len() == 0 {
        Seq::empty()
    } else {
        bullets_of(s.subrange(0, s.len() - 1)) + if is_player_bullet(s[s.len() - 1]) {
            seq![
                (
                    s[s.len() - 1].id,
                    s[s.len() - 1].c.transform->0,
                    s[s.len() - 1].c.hitbox->0,
                    s[s.len() - 1].c.damage->0,
                ),
            ]
        } else {
            Seq::empty()
        }
    }
}

/// The damages of the listed bullets that overlap the circle at `(ot, oh)`
/// without being the entity `oid` itself, in list order.
pub open spec fn dmgs_of_bullets(
    bs: Seq<(u64, Transform2D, CircleHitbox, i64)>,
    oid: u64,
    ot: Transform2D,
    oh: CircleHitbox,
) -> Seq<int>
    decreases bs.len(),
{
    if bs.len() == 0 {
        Seq::empty()
    } else {
        dmgs_of_bullets(bs.subrange(0, bs.len() - 1), oid, ot, oh) + if bs[bs.len() - 1].0 != oid
            && circles_intersect_spec(bs[bs.len() - 1].1, bs[bs.len() - 1].2, ot, oh) {
            seq![bs[bs.len() - 1].3 as int]
        } else {
            Seq::empty()
        }
    }
}

/// The damages the boss at snapshot position `j` takes during the pass: the
/// snapshot player bullets overlapping it, in snapshot order.
pub open spec fn boss_dmgs(s: Seq<Entry>, j: int) -> Seq<int> {
    dmgs_of_bullets(bullets_of(s), s[j].id, s[j].c.transform->0, s[j].c.hitbox->0)
}

/// No entry plays both roles: none is at once a player bullet and a boss.
pub open spec fn no_dual_roles(s: Seq<Entry>) -> bool {
    forall|k: int|
        0 <= k < s.len() ==> !(is_player_bullet(#[trigger] s[k]) && is_boss_entry(s[k]))
}

/// The surviving boss's components against its tracked state: the hit
/// points and the phase queue as the state says, all else as spawned.
pub open spec fn boss_comps_match(
    c0: Components,
    h: Option<Hitpoint>,
    q: Option<Seq<BossMove>>,
    c2: Components,
) -> bool {
    &&& c2.hitpoint == h
    &&& (match q {
        Some(qs) => c2.boss_moves is Some && (c2.boss_moves->0).0@ == qs,
        None => c2.boss_moves is None,
    })
    &&& c2 == (Components { hitpoint: c2.hitpoint, boss_moves: c2.boss_moves, ..c0 })
}

/// The boss at snapshot position `j` has settled: gone exactly when its
/// damage fold despawns it, and otherwise present with the folded hit
/// points and phase queue.
pub open spec fn boss_settled(s0: Seq<Entry>, j: int, after: Seq<Entry>) -> bool {
    match boss_fold(boss_state0(s0[j].c), boss_dmgs(s0, j)) {
        None => !has_id(after, s0[j].id),
        Some(p) => exists|k2: int|
            0 <= k2 < after.len() && #[trigger] after[k2].id == s0[j].id && boss_comps_match(
                s0[j].c,
                p.0,
                p.1,
                after[k2].c,
            ),
    }
}

/// The phase-end cues the whole pass sounds on the snapshot bosses below
/// position `n`.
pub open spec fn pass_pops(s: Seq<Entry>, n: int) -> nat
    decreases n,
{
    if n <= 0 {
        0
    } else {
        pass_pops(s, n - 1) + if is_boss_entry(s[n - 1]) {
            fold_pops(boss_state0(s[n - 1].c), boss_dmgs(s, n - 1))
        } else {
            0
        }
    }
}

/// Whether the snapshot entry at `i` is a player bullet overlapping some
/// boss that is not itself.
pub open spec fn bullet_hits_some_boss(s: Seq<Entry>, i: int) -> bool {
    is_player_bullet(s[i]) && exists|j: int|
        0 <= j < s.len() && #[trigger] is_boss_entry(s[j]) && s[j].id != s[i].id
            && circles_intersect_spec(
            s[i].c.transform->0,
            s[i].c.hitbox->0,
            s[j].c.transform->0,
            s[j].c.hitbox->0,
        )
}

/// No player bullet overlaps any boss.
pub open spec fn no_boss_hit(s: Seq<Entry>) -> bool {
    forall|i: int, j: int|
        (0 <= i < s.len() && 0 <= j < s.len() && #[trigger] is_player_bullet(s[i])
            && #[trigger] is_boss_entry(s[j])) ==> !circles_intersect_spec(
            s[i].c.transform->0,
            s[i].c.hitbox->0,
            s[j].c.transform->0,
            s[j].c.hitbox->0,
        )
}

/// A snapshot tuple faithfully records some player bullet of the store.
pub open spec fn bullet_snap_ok(s0: Seq<Entry>, b: (u64, Transform2D, CircleHitbox, i64)) -> bool {
    exists|j: int|
        0 <= j < s0.len() && #[trigger] is_player_bullet(s0[j]) && b.0 == s0[j].id
            && b.1 == s0[j].c.transform->0 && b.2 == s0[j].c.hitbox->0
            && b.3 == s0[j].c.damage->0
}

/// Whether the snapshot pair `(i, j)` is a hit: a player bullet at `i`
/// overlapping a boss at `j` that is not itself.
pub open spec fn pair_hits(s: Seq<Entry>, i: int, j: int) -> bool {
    is_player_bullet(s[i]) && is_boss_entry(s[j]) && s[i].id != s[j].id
        && circles_intersect_spec(
        s[i].c.transform->0,
        s[i].c.hitbox->0,
        s[j].c.transform->0,
        s[j].c.hitbox->0,
    )
}

/// The snapshot position the boss pass has settled up to: the next
/// unprocessed boss's position, or the store's end.
spec fn boss_bound(bv: Seq<(usize, u64, Transform2D, CircleHitbox)>, m: int, n: int) -> int {
    if m < bv.len() {
        bv[m].0 as int
    } else {
        n
    }
}

/// One applied hit keeps the pass's running facts: identifiers only leave
/// the store, entries that are neither bosses nor overlapping bullets
/// stay, and the hit bullet is out.
proof fn lemma_hit_preserved(
    s0: Seq<Entry>,
    wb: Seq<Entry>,
    wa: Seq<Entry>,
    bid: u64,
    oid: u64,
    bt: Transform2D,
    bh: CircleHitbox,
    ot: Transform2D,
    oh: CircleHitbox,
    bdmg: i64,
)
    requires
        crate::world::ids_sorted(s0),
        bullet_snap_ok(s0, (bid, bt, bh, bdmg)),
        exists|jj: int|
            0 <= jj < s0.len() && #[trigger] is_boss_entry(s0[jj]) && oid == s0[jj].id
                && ot == s0[jj].c.transform->0 && oh == s0[jj].c.hitbox->0,
        circles_intersect_spec(bt, bh, ot, oh),
        bid != oid,
        forall|x: u64| #[trigger] has_id(wa, x) ==> has_id(wb, x),
        forall|k: int|
            0 <= k < wb.len() && (#[trigger] wb[k]).id != bid && wb[k].id != oid ==> has_entry(
                wa,
                wb[k],
            ),
        !has_id(wa, bid),
        forall|x: u64| #[trigger] has_id(wb, x) ==> has_id(s0, x),
        forall|kk: int|
            0 <= kk < s0.len() && !is_boss_entry(#[trigger] s0[kk]) && !bullet_hits_some_boss(
                s0,
                kk,
            ) ==> has_entry(wb, s0[kk]),
    ensures
        forall|x: u64| #[trigger] has_id(wa, x) ==> has_id(s0, x),
        forall|kk: int|
            0 <= kk < s0.len() && !is_boss_entry(#[trigger] s0[kk]) && !bullet_hits_some_boss(
                s0,
                kk,
            ) ==> has_entry(wa, s0[kk]),
{
    let ib = choose|jj: int|
        0 <= jj < s0.len() && #[trigger] is_player_bullet(s0[jj]) && bid == s0[jj].id
            && bt == s0[jj].c.transform->0 && bh == s0[jj].c.hitbox->0
            && bdmg == s0[jj].c.damage->0;
    let jb = choose|jj: int|
        0 <= jj < s0.len() && #[trigger] is_boss_entry(s0[jj]) && oid == s0[jj].id
            && ot == s0[jj].c.transform->0 && oh == s0[jj].c.hitbox->0;
    assert forall|kk: int|
        0 <= kk < s0.len() && !is_boss_entry(#[trigger] s0[kk]) && !bullet_hits_some_boss(
            s0,
            kk,
        ) implies has_entry(wa, s0[kk]) by {
        assert(has_entry(wb, s0[kk]));
        let idx = choose|i2: int| 0 <= i2 < wb.len() && wb[i2] == s0[kk];
        assert(s0[kk].id != bid) by {
            if s0[kk].id == bid {
                lemma_id_unique(s0, kk, ib);
                assert(is_boss_entry(s0[jb]) && s0[jb].id != s0[kk].id
                    && circles_intersect_spec(s0[kk].c.transform->0, s0[kk].c.hitbox->0,
                    s0[jb].c.transform->0, s0[jb].c.hitbox->0));
                assert(bullet_hits_some_boss(s0, kk));
            }
        };
        assert(s0[kk].id != oid) by {
            if s0[kk].id == oid {
                lemma_id_unique(s0, kk, jb);
            }
        };
        assert(has_entry(wa, wb[idx]));
    };
}

/// Entries carrying neither the hit bullet's nor the hit boss's identifier
/// keep their exact presence through one applied hit.
proof fn lemma_entry_carried(wb: Seq<Entry>, wa: Seq<Entry>, e: Entry, bid: u64, oid: u64)
    requires
        has_entry(wb, e),
        e.id != bid,
        e.id != oid,
        forall|k: int|
            0 <= k < wb.len() && (#[trigger] wb[k]).id != bid && wb[k].id != oid ==> has_entry(
                wa,
                wb[k],
            ),
    ensures
        has_entry(wa, e),
{
    let k = choose|k: int| 0 <= k < wb.len() && #[trigger] wb[k] == e;
    assert(has_entry(wa, wb[k]));
}

/// Under distinct roles, a boss's identifier is never a snapshot player
/// bullet's identifier.
proof fn lemma_boss_id_not_bullet(
    s0: Seq<Entry>,
    j: int,
    bid: u64,
    bt: Transform2D,
    bh: CircleHitbox,
    bdmg: i64,
)
    requires
        crate::world::ids_sorted(s0),
        no_dual_roles(s0),
        0 <= j < s0.len(),
        is_boss_entry(s0[j]),
        bullet_snap_ok(s0, (bid, bt, bh, bdmg)),
    ensures
        s0[j].id != bid,
{
    if s0[j].id == bid {
        let ib = choose|jj: int|
            0 <= jj < s0.len() && #[trigger] is_player_bullet(s0[jj]) && bid == s0[jj].id
                && bt == s0[jj].c.transform->0 && bh == s0[jj].c.hitbox->0
                && bdmg == s0[jj].c.damage->0;
        lemma_id_unique(s0, j, ib);
    }
}

/// One apply call steps the hit boss's tracked state: given the store held
/// the boss with components matching the state, the outcome is `boss_step`
/// of the state, and the cues grow by exactly the step's phase-end cues.
proof fn lemma_boss_step_outcome(
    c0: Components,
    h: Option<Hitpoint>,
    q: Option<Seq<BossMove>>,
    wb: Seq<Entry>,
    wa: Seq<Entry>,
    boss_id: u64,
    dmg: int,
    cues_b: Seq<Cue>,
    cues_a: Seq<Cue>,
)
    requires
        crate::world::ids_sorted(wb),
        exists|k2: int|
            0 <= k2 < wb.len() && #[trigger] wb[k2].id == boss_id && boss_comps_match(
                c0,
                h,
                q,
                wb[k2].c,
            ),
        forall|bi: int|
            (0 <= bi < wb.len() && #[trigger] wb[bi].id == boss_id) ==> boss_outcome_ok(
                wb[bi].c,
                dmg,
                wa,
                boss_id,
                cues_b,
                cues_a,
            ),
    ensures
        match boss_step(Some((h, q)), dmg) {
            None => !has_id(wa, boss_id),
            Some(p2) => exists|k3: int|
                0 <= k3 < wa.len() && #[trigger] wa[k3].id == boss_id && boss_comps_match(
                    c0,
                    p2.0,
                    p2.1,
                    wa[k3].c,
                ),
        },
        cues_a == cues_b + Seq::new(step_pops(Some((h, q)), dmg), |x: int| Cue::PhaseEnd),
{
    let k2 = choose|k2: int|
        0 <= k2 < wb.len() && #[trigger] wb[k2].id == boss_id && boss_comps_match(
            c0,
            h,
            q,
            wb[k2].c,
        );
    let c = wb[k2].c;
    assert(boss_outcome_ok(c, dmg, wa, boss_id, cues_b, cues_a));
    if c.boss_moves is Some && (c.boss_moves->0).0@.len() > 0 {
        let qs = (c.boss_moves->0).0@;
        assert(q == Some(qs));
        let front = qs[0];
        if phase_spent(front, dmg) {
            assert(cues_a == cues_b.push(Cue::PhaseEnd));
            assert(step_pops(Some((h, q)), dmg) == 1);
            assert(cues_b + Seq::new(1, |x: int| Cue::PhaseEnd) =~= cues_b.push(Cue::PhaseEnd));
            if qs.len() > 1 {
                let k3 = choose|k3: int| 0 <= k3 < wa.len() && #[trigger] wa[k3].id == boss_id;
                let c2 = wa[k3].c;
                assert(c2.hitpoint == boss_hp_damaged(c, dmg));
                assert(c2.hitpoint == hp_after_damage(h, dmg));
                assert((c2.boss_moves->0).0@ =~= qs.subrange(1, qs.len() as int));
                assert(c2 == (Components { hitpoint: c2.hitpoint, boss_moves: c2.boss_moves,
                    ..c }));
                assert(c == (Components { hitpoint: c.hitpoint, boss_moves: c.boss_moves,
                    ..c0 }));
                assert(boss_comps_match(c0, hp_after_damage(h, dmg), Some(qs.subrange(1,
                    qs.len() as int)), c2));
            }
        } else {
            assert(cues_a == cues_b);
            assert(step_pops(Some((h, q)), dmg) == 0);
            assert(cues_b + Seq::new(0, |x: int| Cue::PhaseEnd) =~= cues_b);
            let k3 = choose|k3: int| 0 <= k3 < wa.len() && #[trigger] wa[k3].id == boss_id;
            let c2 = wa[k3].c;
            let q2 = (c2.boss_moves->0).0@;
            assert(phase_damaged(front, dmg, q2[0]));
            assert(q2[0] == phase_after_damage(front, dmg)) by {
                let x = q2[0];
                match front {
                    BossMove::NonSpells { .. } => {
                        assert(x is NonSpells);
                        assert(x == (BossMove::NonSpells {
                            timeout: bm_timeout(x),
                            hp: bm_hp(x),
                            attack: bm_attack(x),
                        }));
                    },
                    BossMove::Spells { .. } => {
                        assert(x is Spells);
                        assert(x == (BossMove::Spells {
                            name: x->Spells_name,
                            timeout: bm_timeout(x),
                            hp: bm_hp(x),
                            attack: bm_attack(x),
                        }));
                    },
                }
            };
            assert forall|kx: int| 1 <= kx < qs.len() implies q2[kx] == qs[kx] by {
                assert(q2[kx] == q2.subrange(1, qs.len() as int)[kx - 1]);
                assert(qs[kx] == qs.subrange(1, qs.len() as int)[kx - 1]);
            };
            assert(q2 =~= qs.update(0, phase_after_damage(front, dmg)));
            assert(c2.hitpoint == hp_after_damage(h, dmg));
            assert(boss_comps_match(c0, hp_after_damage(h, dmg), Some(qs.update(0,
                phase_after_damage(front, dmg))), c2));
        }
    } else {
        assert(!has_id(wa, boss_id));
        assert(cues_a == cues_b);
        assert(step_pops(Some((h, q)), dmg) == 0);
        assert(cues_b + Seq::new(0, |x: int| Cue::PhaseEnd) =~= cues_b);
    }
}

/// A stretch of the snapshot without a boss sounds no phase-end cue.
proof fn lemma_pass_pops_skip(s: Seq<Entry>, a: int, b: int)
    requires
        0 <= a <= b,
        forall|j: int| a <= j < b ==> !is_boss_entry(#[trigger] s[j]),
    ensures
        pass_pops(s, b) == pass_pops(s, a),
    decreases b - a,
{
    if b > a {
        lemma_pass_pops_skip(s, a, b - 1);
    }
}

/// Resolve player bullets against bosses, boss by boss in store order, the
/// snapshot bullets in store order against each: every overlapping pair is
/// applied through `apply_bullet_boss_hit`, which states what one hit does.
/// When no pair overlaps, nothing changes; every snapshot bullet that
/// overlaps a boss leaves the store, nothing is spawned, every entry that
/// is neither a boss nor such a bullet survives untouched, and — where no
/// entry is at once a player bullet and a boss — every boss settles to the
/// fold of its hits, with one phase-end cue per popped phase.
#[verifier::rlimit(100)]
#[verifier::spinoff_prover]
pub fn collide_player_bullets_with_bosses(w: &mut World, cues: &mut Vec<Cue>)
    requires
        world_wf(*old(w)),
    ensures
        world_wf(*final(w)),
        final(w).next_id == old(w).next_id,
        no_boss_hit(old(w).entries@) ==> *final(w) == *old(w) && final(cues)@ == old(cues)@,
        forall|x: u64| #[trigger] has_id(final(w).entries@, x) ==> has_id(old(w).entries@, x),
        forall|ii: int|
            0 <= ii < old(w).entries@.len() && #[trigger] bullet_hits_some_boss(
                old(w).entries@,
                ii,
            ) ==> !has_id(final(w).entries@, old(w).entries@[ii].id),
        forall|k: int|
            0 <= k < old(w).entries@.len() && !is_boss_entry(#[trigger] old(w).entries@[k])
                && !bullet_hits_some_boss(old(w).entries@, k) ==> has_entry(
                final(w).entries@,
                old(w).entries@[k],
            ),
        no_dual_roles(old(w).entries@) ==> (forall|j: int|
            0 <= j < old(w).entries@.len() && is_boss_entry(#[trigger] old(w).entries@[j])
                ==> boss_settled(old(w).entries@, j, final(w).entries@)),
        no_dual_roles(old(w).entries@) ==> final(cues)@ == old(cues)@ + Seq::new(
            pass_pops(old(w).entries@, old(w).entries@.len() as int),
            |x: int| Cue::PhaseEnd,
        ),
{
    let ghost s0 = w.entries@;
    let n = w.len();
    let mut bullets: Vec<(u64, Transform2D, CircleHitbox, i64)> = Vec::new();
    let mut k: usize = 0;
    proof {
        assert(bullets@ =~= bullets_of(s0.subrange(0, 0)));
    }
    while k < n
        invariant
            world_wf(*w),
            w.entries@ == s0,
            n == s0.len(),
            0 <= k <= n,
            forall|m: int|
                0 <= m < bullets@.len() ==> bullet_snap_ok(s0, #[trigger] bullets@[m]),
            forall|m: int| 0 <= m < bullets@.len() ==> in_fx((#[trigger] bullets@[m]).3 as int),
            forall|m: int|
                0 <= m < bullets@.len() ==> crate::components::transform_in_fx(
                    (#[trigger] bullets@[m]).1) && crate::components::hitbox_in_fx(
                    bullets@[m].2),
            forall|j: int|
                0 <= j < k && is_player_bullet(#[trigger] s0[j]) ==> exists|m: int|
                    0 <= m < bullets@.len() && #[trigger] bullets@[m] == (
                    s0[j].id,
                    s0[j].c.transform->0,
                    s0[j].c.hitbox->0,
                    s0[j].c.damage->0,
                    ),
            bullets@ =~= bullets_of(s0.subrange(0, k as int)),
        decreases n - k,
    {
        let ghost b_pre = bullets@;
        let e = w.get(k);
        if e.c.player && e.c.bullet && e.c.transform.is_some() && e.c.hitbox.is_some()
            && e.c.damage.is_some() {
            let t = *e.c.transform.as_ref().unwrap();
            let h = *e.c.hitbox.as_ref().unwrap();
            let d = *e.c.damage.as_ref().unwrap();
            bullets.push((e.id, t, h, d));
            proof {
                assert(is_player_bullet(s0[k as int]));
                assert(comps_in_fx(s0[k as int].c));
                assert(bullet_snap_ok(s0, bullets@[bullets@.len() - 1]));
                assert(bullets@[bullets@.len() - 1] == (s0[k as int].id,
                    s0[k as int].c.transform->0, s0[k as int].c.hitbox->0,
                    s0[k as int].c.damage->0));
            }
        }
        proof {
            assert(s0.subrange(0, k as int + 1).subrange(0, k as int) =~= s0.subrange(
                0,
                k as int,
            ));
            assert(s0.subrange(0, k as int + 1)[k as int] == s0[k as int]);
            assert(bullets@ =~= bullets_of(s0.subrange(0, k as int + 1)));
            assert forall|j: int|
                0 <= j < k + 1 && is_player_bullet(#[trigger] s0[j]) implies exists|m: int|
                0 <= m < bullets@.len() && #[trigger] bullets@[m] == (
                s0[j].id,
                s0[j].c.transform->0,
                s0[j].c.hitbox->0,
                s0[j].c.damage->0,
                ) by {
                if j < k {
                    let m0 = choose|m: int|
                        0 <= m < b_pre.len() && #[trigger] b_pre[m] == (
                        s0[j].id,
                        s0[j].c.transform->0,
                        s0[j].c.hitbox->0,
                        s0[j].c.damage->0,
                        );
                    assert(bullets@[m0] == b_pre[m0]);
                }
            };
        }
        k = k + 1;
    }
    proof {
        assert(s0.subrange(0, s0.len() as int) =~= s0);
    }
    let mut bosses: Vec<(usize, u64, Transform2D, CircleHitbox)> = Vec::new();
    let mut k2: usize = 0;
    while k2 < n
        invariant
            world_wf(*w),
            w.entries@ == s0,
            n == s0.len(),
            0 <= k2 <= n,
            forall|x: int|
                0 <= x < bosses@.len() ==> ({
                    let b = #[trigger] bosses@[x];
                    &&& (b.0 as int) < s0.len()
                    &&& is_boss_entry(s0[b.0 as int])
                    &&& b.1 == s0[b.0 as int].id
                    &&& b.2 == s0[b.0 as int].c.transform->0
                    &&& b.3 == s0[b.0 as int].c.hitbox->0
                    &&& crate::components::transform_in_fx(b.2)
                    &&& crate::components::hitbox_in_fx(b.3)
                }),
            forall|x: int| 0 <= x < bosses@.len() ==> ((#[trigger] bosses@[x]).0 as int) < k2,
            forall|x1: int, x2: int|
                0 <= x1 < x2 < bosses@.len() ==> (#[trigger] bosses@[x1]).0
                    < (#[trigger] bosses@[x2]).0,
            forall|j: int|
                0 <= j < k2 && is_boss_entry(#[trigger] s0[j]) ==> exists|x: int|
                    0 <= x < bosses@.len() && ((#[trigger] bosses@[x]).0 as int) == j,
        decreases n - k2,
    {
        let ghost o_pre = bosses@;
        let e = w.get(k2);
        if e.c.boss && e.c.enemy && e.c.transform.is_some() && e.c.hitbox.is_some() {
            let t = *e.c.transform.as_ref().unwrap();
            let h = *e.c.hitbox.as_ref().unwrap();
            bosses.push((k2, e.id, t, h));
            proof {
                assert(is_boss_entry(s0[k2 as int]));
                assert(comps_in_fx(s0[k2 as int].c));
                assert(bosses@[bosses@.len() - 1] == (k2, s0[k2 as int].id,
                    s0[k2 as int].c.transform->0, s0[k2 as int].c.hitbox->0));
            }
        }
        proof {
            assert forall|j: int|
                0 <= j < k2 + 1 && is_boss_entry(#[trigger] s0[j]) implies exists|x: int|
                0 <= x < bosses@.len() && ((#[trigger] bosses@[x]).0 as int) == j by {
                if j < k2 {
                    let x0 = choose|x: int|
                        0 <= x < o_pre.len() && ((#[trigger] o_pre[x]).0 as int) == j;
                    assert(bosses@[x0] == o_pre[x0]);
                }
            };
        }
        k2 = k2 + 1;
    }
    proof {
        assert forall|kk: int|
            0 <= kk < s0.len() && !is_boss_entry(#[trigger] s0[kk]) && !bullet_hits_some_boss(
                s0,
                kk,
            ) implies has_entry(w.entries@, s0[kk]) by {
            assert(w.entries@[kk] == s0[kk]);
        };
        assert forall|j: int|
            0 <= j < s0.len() && is_boss_entry(#[trigger] s0[j]) implies has_entry(
            w.entries@,
            s0[j],
        ) by {
            assert(w.entries@[j] == s0[j]);
        };
        assert forall|j2: int|
            0 <= j2 < boss_bound(bosses@, 0, s0.len() as int) implies !is_boss_entry(
            #[trigger] s0[j2]) by {
            if is_boss_entry(s0[j2]) {
                let x = choose|x: int|
                    0 <= x < bosses@.len() && ((#[trigger] bosses@[x]).0 as int) == j2;
                if x > 0 {
                    assert(bosses@[0].0 < bosses@[x].0);
                }
            }
        };
        lemma_pass_pops_skip(s0, 0, boss_bound(bosses@, 0, s0.len() as int));
        assert(cues@ =~= cues@ + Seq::new(0, |x: int| Cue::PhaseEnd));
    }
    let mut m: usize = 0;
    while m < bosses.len()
        invariant
            world_wf(*w),
            w.next_id == old(w).next_id,
            0 <= m <= bosses@.len(),
            n == s0.len(),
            no_boss_hit(s0) ==> *w == *old(w) && cues@ == old(cues)@,
            crate::world::ids_sorted(s0),
            forall|mm: int|
                0 <= mm < bullets@.len() ==> bullet_snap_ok(s0, #[trigger] bullets@[mm]),
            forall|mm: int|
                0 <= mm < bullets@.len() ==> in_fx((#[trigger] bullets@[mm]).3 as int),
            forall|mm: int|
                0 <= mm < bullets@.len() ==> crate::components::transform_in_fx(
                    (#[trigger] bullets@[mm]).1) && crate::components::hitbox_in_fx(
                    bullets@[mm].2),
            forall|j: int|
                0 <= j < s0.len() && is_player_bullet(#[trigger] s0[j]) ==> exists|mm: int|
                    0 <= mm < bullets@.len() && #[trigger] bullets@[mm] == (
                    s0[j].id,
                    s0[j].c.transform->0,
                    s0[j].c.hitbox->0,
                    s0[j].c.damage->0,
                    ),
            bullets@ == bullets_of(s0),
            forall|x: int|
                0 <= x < bosses@.len() ==> ({
                    let b = #[trigger] bosses@[x];
                    &&& (b.0 as int) < s0.len()
                    &&& is_boss_entry(s0[b.0 as int])
                    &&& b.1 == s0[b.0 as int].id
                    &&& b.2 == s0[b.0 as int].c.transform->0
                    &&& b.3 == s0[b.0 as int].c.hitbox->0
                    &&& crate::components::transform_in_fx(b.2)
                    &&& crate::components::hitbox_in_fx(b.3)
                }),
            forall|x1: int, x2: int|
                0 <= x1 < x2 < bosses@.len() ==> (#[trigger] bosses@[x1]).0
                    < (#[trigger] bosses@[x2]).0,
            forall|j: int|
                0 <= j < s0.len() && is_boss_entry(#[trigger] s0[j]) ==> exists|x: int|
                    0 <= x < bosses@.len() && ((#[trigger] bosses@[x]).0 as int) == j,
            forall|x: u64| #[trigger] has_id(w.entries@, x) ==> has_id(s0, x),
            forall|kk: int|
                0 <= kk < s0.len() && !is_boss_entry(#[trigger] s0[kk])
                    && !bullet_hits_some_boss(s0, kk) ==> has_entry(w.entries@, s0[kk]),
            forall|ii: int, j2: int|
                0 <= ii < s0.len() && 0 <= j2 < boss_bound(bosses@, m as int, s0.len() as int)
                    && #[trigger] pair_hits(s0, ii, j2) ==> !has_id(w.entries@, s0[ii].id),
            no_dual_roles(s0) ==> (forall|j: int|
                0 <= j < boss_bound(bosses@, m as int, s0.len() as int) && is_boss_entry(
                    #[trigger] s0[j]) ==> boss_settled(s0, j, w.entries@)),
            no_dual_roles(s0) ==> (forall|j: int|
                boss_bound(bosses@, m as int, s0.len() as int) <= j < s0.len()
                    && is_boss_entry(#[trigger] s0[j]) ==> has_entry(w.entries@, s0[j])),
            no_dual_roles(s0) ==> cues@ == old(cues)@ + Seq::new(
                pass_pops(s0, boss_bound(bosses@, m as int, s0.len() as int)),
                |x: int| Cue::PhaseEnd,
            ),
        decreases bosses@.len() - m,
    {
        let (jj, oid, ot, oh) = bosses[m];
        let ghost c0j = s0[jj as int].c;
        let ghost st0j = boss_state0(c0j);
        let ghost cues_m = cues@;
        proof {
            assert(boss_bound(bosses@, m as int, s0.len() as int) == jj as int);
            assert(dmgs_of_bullets(bullets@.subrange(0, 0), oid, ot, oh)
                =~= Seq::<int>::empty());
            if no_dual_roles(s0) {
                assert(has_entry(w.entries@, s0[jj as int]));
                let kw = choose|k3: int|
                    0 <= k3 < w.entries@.len() && #[trigger] w.entries@[k3] == s0[jj as int];
                assert(w.entries@[kw].id == oid);
                assert(boss_comps_match(c0j, c0j.hitpoint, if c0j.boss_moves is Some {
                    Some((c0j.boss_moves->0).0@)
                } else {
                    None::<Seq<BossMove>>
                }, w.entries@[kw].c));
            }
            assert(cues@ =~= cues_m + Seq::new(0, |x: int| Cue::PhaseEnd));
        }
        let mut i: usize = 0;
        while i < bullets.len()
            invariant
                world_wf(*w),
                w.next_id == old(w).next_id,
                0 <= i <= bullets@.len(),
                m < bosses@.len(),
                n == s0.len(),
                bosses@[m as int] == (jj, oid, ot, oh),
                (jj as int) < s0.len(),
                is_boss_entry(s0[jj as int]),
                oid == s0[jj as int].id,
                ot == s0[jj as int].c.transform->0,
                oh == s0[jj as int].c.hitbox->0,
                crate::components::transform_in_fx(ot),
                crate::components::hitbox_in_fx(oh),
                c0j == s0[jj as int].c,
                st0j == boss_state0(c0j),
                no_boss_hit(s0) ==> *w == *old(w) && cues@ == old(cues)@,
                crate::world::ids_sorted(s0),
                forall|mm: int|
                    0 <= mm < bullets@.len() ==> bullet_snap_ok(s0, #[trigger] bullets@[mm]),
                forall|mm: int|
                    0 <= mm < bullets@.len() ==> in_fx((#[trigger] bullets@[mm]).3 as int),
                forall|mm: int|
                    0 <= mm < bullets@.len() ==> crate::components::transform_in_fx(
                        (#[trigger] bullets@[mm]).1) && crate::components::hitbox_in_fx(
                        bullets@[mm].2),
                forall|x: u64| #[trigger] has_id(w.entries@, x) ==> has_id(s0, x),
                forall|kk: int|
                    0 <= kk < s0.len() && !is_boss_entry(#[trigger] s0[kk])
                        && !bullet_hits_some_boss(s0, kk) ==> has_entry(w.entries@, s0[kk]),
                forall|ii: int, j2: int|
                    0 <= ii < s0.len() && 0 <= j2 < jj as int && #[trigger] pair_hits(s0, ii,
                        j2) ==> !has_id(w.entries@, s0[ii].id),
                forall|b: int|
                    0 <= b < i && (#[trigger] bullets@[b]).0 != oid && circles_intersect_spec(
                        bullets@[b].1,
                        bullets@[b].2,
                        ot,
                        oh,
                    ) ==> !has_id(w.entries@, bullets@[b].0),
                no_dual_roles(s0) ==> (forall|j: int|
                    0 <= j < jj as int && is_boss_entry(#[trigger] s0[j]) ==> boss_settled(
                        s0,
                        j,
                        w.entries@,
                    )),
                no_dual_roles(s0) ==> (forall|j: int|
                    (jj as int) < j < s0.len() && is_boss_entry(#[trigger] s0[j])
                        ==> has_entry(w.entries@, s0[j])),
                no_dual_roles(s0) ==> ({
                    let st = boss_fold(st0j, dmgs_of_bullets(bullets@.subrange(0, i as int),
                        oid, ot, oh));
                    &&& (st is None ==> !has_id(w.entries@, oid))
                    &&& (st matches Some(p) ==> exists|k3: int|
                        0 <= k3 < w.entries@.len() && #[trigger] w.entries@[k3].id == oid
                            && boss_comps_match(c0j, p.0, p.1, w.entries@[k3].c))
                    &&& cues@ == cues_m + Seq::new(fold_pops(st0j, dmgs_of_bullets(
                        bullets@.subrange(0, i as int), oid, ot, oh)), |x: int| Cue::PhaseEnd)
                }),
            decreases bullets@.len() - i,
        {
            let (bid, bt, bh, bdmg) = bullets[i];
            let ghost dpre = dmgs_of_bullets(bullets@.subrange(0, i as int), oid, ot, oh);
            let mut called = false;
            if bid != oid {
                let hit = bh.is_intersect(&bt, &ot, &oh);
                proof {
                    if no_boss_hit(s0) && hit {
                        let bi = choose|jx: int|
                            0 <= jx < s0.len() && #[trigger] is_player_bullet(s0[jx])
                                && bid == s0[jx].id && bt == s0[jx].c.transform->0
                                && bh == s0[jx].c.hitbox->0 && bdmg == s0[jx].c.damage->0;
                        assert(is_player_bullet(s0[bi]) && is_boss_entry(s0[jj as int]));
                        assert(!circles_intersect_spec(s0[bi].c.transform->0,
                            s0[bi].c.hitbox->0, ot, oh));
                        assert(false);
                    }
                }
                if hit {
                    called = true;
                    let ghost wb = w.entries@;
                    let ghost cues_b = cues@;
                    apply_bullet_boss_hit(w, bid, bdmg, oid, cues);
                    proof {
                        assert(exists|jx: int|
                            0 <= jx < s0.len() && #[trigger] is_boss_entry(s0[jx])
                                && oid == s0[jx].id && ot == s0[jx].c.transform->0
                                && oh == s0[jx].c.hitbox->0) by {
                            assert(is_boss_entry(s0[jj as int]));
                        };
                        lemma_hit_preserved(s0, wb, w.entries@, bid, oid, bt, bh, ot, oh,
                            bdmg);
                        assert forall|ii: int, j2: int|
                            0 <= ii < s0.len() && 0 <= j2 < jj as int && #[trigger] pair_hits(
                                s0, ii, j2) implies !has_id(w.entries@, s0[ii].id) by {
                            assert(!has_id(wb, s0[ii].id));
                            if has_id(w.entries@, s0[ii].id) {
                                assert(has_id(wb, s0[ii].id));
                            }
                        };
                        assert forall|b: int|
                            0 <= b < i && (#[trigger] bullets@[b]).0 != oid
                                && circles_intersect_spec(bullets@[b].1, bullets@[b].2, ot,
                                oh) implies !has_id(w.entries@, bullets@[b].0) by {
                            assert(!has_id(wb, bullets@[b].0));
                            if has_id(w.entries@, bullets@[b].0) {
                                assert(has_id(wb, bullets@[b].0));
                            }
                        };
                        if no_dual_roles(s0) {
                            assert forall|j: int|
                                0 <= j < jj as int && is_boss_entry(#[trigger] s0[j]) implies
                                boss_settled(s0, j, w.entries@) by {
                                lemma_boss_id_not_bullet(s0, j, bid, bt, bh, bdmg);
                                match boss_fold(boss_state0(s0[j].c), boss_dmgs(s0, j)) {
                                    None => {
                                        if has_id(w.entries@, s0[j].id) {
                                            assert(has_id(wb, s0[j].id));
                                        }
                                    },
                                    Some(p) => {
                                        let k3 = choose|k3: int|
                                            0 <= k3 < wb.len() && #[trigger] wb[k3].id
                                                == s0[j].id && boss_comps_match(s0[j].c, p.0,
                                                p.1, wb[k3].c);
                                        assert(wb[k3].id != oid) by {
                                            if wb[k3].id == oid {
                                                lemma_id_unique(s0, j, jj as int);
                                            }
                                        };
                                        assert(has_entry(wb, wb[k3]));
                                        lemma_entry_carried(wb, w.entries@, wb[k3], bid, oid);
                                        let k4 = choose|k4: int|
                                            0 <= k4 < w.entries@.len()
                                                && #[trigger] w.entries@[k4] == wb[k3];
                                        assert(w.entries@[k4].id == s0[j].id);
                                    },
                                }
                            };
                            assert forall|j: int|
                                (jj as int) < j < s0.len() && is_boss_entry(#[trigger] s0[j])
                                implies has_entry(w.entries@, s0[j]) by {
                                lemma_boss_id_not_bullet(s0, j, bid, bt, bh, bdmg);
                                assert(s0[j].id != oid) by {
                                    if s0[j].id == oid {
                                        lemma_id_unique(s0, j, jj as int);
                                    }
                                };
                                lemma_entry_carried(wb, w.entries@, s0[j], bid, oid);
                            };
                            let st1 = boss_fold(st0j, dpre);
                            match st1 {
                                None => {
                                    assert(!has_id(wb, oid));
                                    if has_id(w.entries@, oid) {
                                        assert(has_id(wb, oid));
                                    }
                                    assert(cues@ == cues_b);
                                },
                                Some(p) => {
                                    lemma_boss_step_outcome(c0j, p.0, p.1, wb, w.entries@,
                                        oid, bdmg as int, cues_b, cues@);
                                },
                            }
                        }
                    }
                }
            }
            proof {
                let bcur = bullets@.subrange(0, i as int + 1);
                assert(bcur.subrange(0, i as int) =~= bullets@.subrange(0, i as int));
                assert(bcur[i as int] == bullets@[i as int]);
                let dcur = dmgs_of_bullets(bcur, oid, ot, oh);
                if bid != oid && circles_intersect_spec(bt, bh, ot, oh) {
                    assert(dcur =~= dpre.push(bdmg as int));
                    assert(dcur.subrange(0, dcur.len() - 1) =~= dpre);
                    assert(boss_fold(st0j, dcur) == boss_step(boss_fold(st0j, dpre),
                        bdmg as int));
                    assert(fold_pops(st0j, dcur) == fold_pops(st0j, dpre) + step_pops(
                        boss_fold(st0j, dpre), bdmg as int));
                    if no_dual_roles(s0) {
                        let p1 = fold_pops(st0j, dpre);
                        let p2 = step_pops(boss_fold(st0j, dpre), bdmg as int);
                        assert((cues_m + Seq::new(p1, |x: int| Cue::PhaseEnd)) + Seq::new(p2,
                            |x: int| Cue::PhaseEnd) =~= cues_m + Seq::new(p1 + p2,
                            |x: int| Cue::PhaseEnd));
                    }
                } else {
                    assert(dcur =~= dpre);
                }
            }
            i = i + 1;
        }
        proof {
            assert(bullets@.subrange(0, bullets@.len() as int) =~= bullets@);
            assert(boss_dmgs(s0, jj as int) == dmgs_of_bullets(bullets@, oid, ot, oh));
            let jnext = boss_bound(bosses@, m as int + 1, s0.len() as int);
            assert((jj as int) < jnext) by {
                if m as int + 1 < bosses@.len() {
                    assert(bosses@[m as int].0 < bosses@[m as int + 1].0);
                }
            };
            assert forall|j2: int| (jj as int) < j2 < jnext implies !is_boss_entry(
                #[trigger] s0[j2]) by {
                if is_boss_entry(s0[j2]) {
                    let x = choose|x: int|
                        0 <= x < bosses@.len() && ((#[trigger] bosses@[x]).0 as int) == j2;
                    if x <= m as int {
                        if x < m as int {
                            assert(bosses@[x].0 < bosses@[m as int].0);
                        }
                    } else {
                        if x > m as int + 1 {
                            assert(bosses@[m as int + 1].0 < bosses@[x].0);
                        }
                    }
                }
            };
            assert forall|ii: int, j2: int|
                0 <= ii < s0.len() && 0 <= j2 < jnext && #[trigger] pair_hits(s0, ii, j2)
                implies !has_id(w.entries@, s0[ii].id) by {
                if j2 == jj as int {
                    let mb = choose|mm: int|
                        0 <= mm < bullets@.len() && #[trigger] bullets@[mm] == (
                        s0[ii].id,
                        s0[ii].c.transform->0,
                        s0[ii].c.hitbox->0,
                        s0[ii].c.damage->0,
                        );
                    assert(bullets@[mb].0 != oid && circles_intersect_spec(bullets@[mb].1,
                        bullets@[mb].2, ot, oh));
                }
            };
            if no_dual_roles(s0) {
                assert(boss_settled(s0, jj as int, w.entries@));
                assert forall|j: int|
                    0 <= j < jnext && is_boss_entry(#[trigger] s0[j]) implies boss_settled(
                    s0,
                    j,
                    w.entries@,
                ) by {
                    assert(j <= jj as int);
                };
                lemma_pass_pops_skip(s0, jj as int + 1, jnext);
                assert(pass_pops(s0, jj as int + 1) == pass_pops(s0, jj as int) + fold_pops(
                    st0j, boss_dmgs(s0, jj as int)));
                let pa = pass_pops(s0, jj as int);
                let pb = fold_pops(st0j, boss_dmgs(s0, jj as int));
                assert((old(cues)@ + Seq::new(pa, |x: int| Cue::PhaseEnd)) + Seq::new(pb,
                    |x: int| Cue::PhaseEnd) =~= old(cues)@ + Seq::new(pa + pb,
                    |x: int| Cue::PhaseEnd));
            }
        }
        m = m + 1;
    }
    proof {
        assert(boss_bound(bosses@, bosses@.len() as int, s0.len() as int) == s0.len() as int);
        assert forall|ii: int|
            0 <= ii < s0.len() && #[trigger] bullet_hits_some_boss(s0, ii) implies !has_id(
            w.entries@,
            s0[ii].id,
        ) by {
            let j2 = choose|j: int|
                0 <= j < s0.len() && #[trigger] is_boss_entry(s0[j]) && s0[j].id != s0[ii].id
                    && circles_intersect_spec(
                    s0[ii].c.transform->0,
                    s0[ii].c.hitbox->0,
                    s0[j].c.transform->0,
                    s0[j].c.hitbox->0,
                );
            assert(pair_hits(s0, ii, j2));
        };
    }
}

/// Everything the player-versus-enemy-bullets pass promises, as one
/// relation between the stores, scores and cue lists around it: the life
/// lost exactly when a vulnerable player overlaps a bullet, the hit cue,
/// and the store rewritten to the respawned player with the first
/// overlapping bullet removed.
pub open spec fn player_pass_rel(
    w0: World,
    sc0: ScoreData,
    cs0: Seq<Cue>,
    w1: World,
    sc1: ScoreData,
    cs1: Seq<Cue>,
) -> bool {
    &&& world_wf(w1)
    &&& w1.next_id == w0.next_id
    &&& sc1 == if player_gets_hit(w0.entries@) {
        ScoreData { life: (sc0.life - 1) as i8, ..sc0 }
    } else {
        sc0
    }
    &&& (!player_gets_hit(w0.entries@) ==> w1 == w0 && cs1 == cs0)
    &&& (player_gets_hit(w0.entries@) ==> cs1 == cs0.push(Cue::PlayerHit))
    &&& forall|pk: int, bk: int|
        {
            &&& #[trigger] first_player_at(w0.entries@, pk)
            &&& w0.entries@[pk].c.invulnerable_delay is None
            &&& #[trigger] first_hit_at(w0.entries@, bk, w0.entries@[pk].c.transform->0,
                w0.entries@[pk].c.hitbox->0)
        } ==> w1.entries@ =~= w0.entries@.update(
            pk,
            hit_player_entry(w0.entries@[pk]),
        ).remove(bk)
}

/// Everything the player-bullets-versus-bosses pass promises, likewise: a
/// hit-free store is untouched, nothing is spawned, every snapshot bullet
/// that overlaps a boss leaves the store, every entry that is neither a
/// boss nor such a bullet survives untouched, and — where no entry is at
/// once a player bullet and a boss — every boss settles to the fold of its
/// hits, with one phase-end cue per popped phase.
pub open spec fn boss_pass_rel(w1: World, cs1: Seq<Cue>, w2: World, cs2: Seq<Cue>) -> bool {
    &&& world_wf(w2)
    &&& w2.next_id == w1.next_id
    &&& (no_boss_hit(w1.entries@) ==> w2 == w1 && cs2 == cs1)
    &&& (forall|x: u64| #[trigger] has_id(w2.entries@, x) ==> has_id(w1.entries@, x))
    &&& (forall|ii: int|
        0 <= ii < w1.entries@.len() && #[trigger] bullet_hits_some_boss(w1.entries@, ii)
            ==> !has_id(w2.entries@, w1.entries@[ii].id))
    &&& (forall|k: int|
        0 <= k < w1.entries@.len() && !is_boss_entry(#[trigger] w1.entries@[k])
            && !bullet_hits_some_boss(w1.entries@, k) ==> has_entry(
            w2.entries@,
            w1.entries@[k],
        ))
    &&& (no_dual_roles(w1.entries@) ==> (forall|j: int|
        0 <= j < w1.entries@.len() && is_boss_entry(#[trigger] w1.entries@[j])
            ==> boss_settled(w1.entries@, j, w2.entries@)))
    &&& (no_dual_roles(w1.entries@) ==> cs2 == cs1 + Seq::new(
        pass_pops(w1.entries@, w1.entries@.len() as int),
        |x: int| Cue::PhaseEnd,
    ))
}

/// Resolve all collisions for the frame: first the player against enemy
/// bullets, then player bullets against bosses, each as its own pass over a
/// snapshot of the store. The two pass relations, chained over the store in
/// the middle, carry everything each pass states.
pub fn update_collision(w: &mut World, score: &mut ScoreData, cues: &mut Vec<Cue>)
    requires
        world_wf(*old(w)),
        old(score).life > -100,
    ensures
        world_wf(*final(w)),
        final(w).next_id == old(w).next_id,
        *final(score) == if player_gets_hit(old(w).entries@) {
            ScoreData { life: (old(score).life - 1) as i8, ..*old(score) }
        } else {
            *old(score)
        },
        exists|wm: World, cm: Seq<Cue>|
            #[trigger] player_pass_rel(*old(w), *old(score), old(cues)@, wm, *final(score),
                cm) && boss_pass_rel(wm, cm, *final(w), final(cues)@),
{
    collide_player_with_bullets(w, score, cues);
    let ghost wm = *w;
    let ghost cm = cues@;
    collide_player_bullets_with_bosses(w, cues);
    proof {
        assert(player_pass_rel(*old(w), *old(score), old(cues)@, wm, *score, cm));
        assert(boss_pass_rel(wm, cm, *w, cues@));
    }
}


} // verus!
