//! Per-frame simulation passes over the entity store.
//!
//! Each pass rebuilds the entry vector in order, so identifiers and ordering
//! are preserved and every pass's effect is stated entry by entry against
//! the store it was given.

use vstd::prelude::*;
use crate::components::{
    rect_contains_spec, Rect, Transform2D,
};
use crate::fx::{fx_add, fx_add_spec, fx_mul, fx_mul_spec, fx_sub, fx_sub_spec, in_fx};
use crate::motion::motion_step_spec;
use crate::world::{comps_in_fx, ids_sorted, world_wf, Components, Entry, World};

verus! {

/// An entry after the movement pass: position advanced and velocity
/// refreshed when both a transform and motion parameters are attached.
pub open spec fn moved_entry(e: Entry, dt: int) -> Entry {
    if e.c.transform is Some && e.c.move_params is Some {
        let t = e.c.transform->0;
        let stepped = motion_step_spec(e.c.move_params->0, t.position, dt);
        Entry {
            id: e.id,
            c: Components {
                transform: Some(Transform2D { position: stepped.1, ..t }),
                move_params: Some(stepped.0),
                ..e.c
            },
        }
    } else {
        e
    }
}

/// Integrate motion: apply one kinematics step to every entity that has both
/// a transform and motion parameters.
pub fn update_movement(w: &mut World, dt: i64)
    requires
        world_wf(*old(w)),
        in_fx(dt as int),
    ensures
        world_wf(*final(w)),
        final(w).next_id == old(w).next_id,
        final(w).entries@.len() == old(w).entries@.len(),
        forall|i: int|
            0 <= i < old(w).entries@.len() ==> final(w).entries@[i] == moved_entry(
                #[trigger] old(w).entries@[i],
                dt as int,
            ),
{
    let ghost orig = w.entries@;
    let mut src: Vec<Entry> = Vec::new();
    core::mem::swap(&mut src, &mut w.entries);
    let mut out: Vec<Entry> = Vec::new();
    while src.len() > 0
        invariant
            out@.len() + src@.len() == orig.len(),
            src@ == orig.subrange(out@.len() as int, orig.len() as int),
            forall|k: int|
                0 <= k < out@.len() ==> out@[k] == moved_entry(#[trigger] orig[k], dt as int),
            forall|k: int| 0 <= k < out@.len() ==> #[trigger] out@[k].id == orig[k].id,
            forall|k: int| 0 <= k < out@.len() ==> comps_in_fx(#[trigger] out@[k].c),
            ids_sorted(orig),
            forall|k: int| 0 <= k < orig.len() ==> comps_in_fx(#[trigger] orig[k].c),
            in_fx(dt as int),
        decreases src@.len(),
    {
        let mut e = src.remove(0);
        proof {
            assert(e == orig[out@.len() as int]);
            assert(src@ =~= orig.subrange(out@.len() as int + 1, orig.len() as int));
        }
        if e.c.transform.is_some() && e.c.move_params.is_some() {
            let t = *e.c.transform.as_ref().unwrap();
            let mut mp = *e.c.move_params.as_ref().unwrap();
            let mut pos = t.position;
            mp.update(&mut pos, dt);
            e.c.transform = Some(Transform2D { position: pos, ..t });
            e.c.move_params = Some(mp);
        }
        out.push(e);
    }
    w.entries = out;
    proof {
        assert(forall|i: int, j: int|
            0 <= i < j < w.entries@.len() ==> #[trigger] w.entries@[i].id
                < #[trigger] w.entries@[j].id);
    }
}

/// An entry after the focus pass: the halo angle advanced by its angular
/// speed.
pub open spec fn focused_entry(e: Entry, dt: int) -> Entry {
    if e.c.focusable is Some {
        let f = e.c.focusable->0;
        Entry {
            id: e.id,
            c: Components {
                focusable: Some(
                    crate::components::Focusable(
                        fx_add_spec(f.0 as int, fx_mul_spec(f.1 as int, dt)) as i64,
                        f.1,
                    ),
                ),
                ..e.c
            },
        }
    } else {
        e
    }
}

/// Advance the cosmetic focus-halo angle of every focusable entity.
pub fn rotate_focus(w: &mut World, dt: i64)
    requires
        world_wf(*old(w)),
        in_fx(dt as int),
    ensures
        world_wf(*final(w)),
        final(w).next_id == old(w).next_id,
        final(w).entries@.len() == old(w).entries@.len(),
        forall|i: int|
            0 <= i < old(w).entries@.len() ==> final(w).entries@[i] == focused_entry(
                #[trigger] old(w).entries@[i],
                dt as int,
            ),
{
    let ghost orig = w.entries@;
    let mut src: Vec<Entry> = Vec::new();
    core::mem::swap(&mut src, &mut w.entries);
    let mut out: Vec<Entry> = Vec::new();
    while src.len() > 0
        invariant
            out@.len() + src@.len() == orig.len(),
            src@ == orig.subrange(out@.len() as int, orig.len() as int),
            forall|k: int|
                0 <= k < out@.len() ==> out@[k] == focused_entry(#[trigger] orig[k], dt as int),
            forall|k: int| 0 <= k < out@.len() ==> #[trigger] out@[k].id == orig[k].id,
            forall|k: int| 0 <= k < out@.len() ==> comps_in_fx(#[trigger] out@[k].c),
            ids_sorted(orig),
            forall|k: int| 0 <= k < orig.len() ==> comps_in_fx(#[trigger] orig[k].c),
            in_fx(dt as int),
        decreases src@.len(),
    {
        let mut e = src.remove(0);
        proof {
            assert(e == orig[out@.len() as int]);
            assert(src@ =~= orig.subrange(out@.len() as int + 1, orig.len() as int));
        }
        if e.c.focusable.is_some() {
            let f = *e.c.focusable.as_ref().unwrap();
            e.c.focusable = Some(crate::components::Focusable(fx_add(f.0, fx_mul(f.1, dt)), f.1));
        }
        out.push(e);
    }
    w.entries = out;
    proof {
        assert(forall|i: int, j: int|
            0 <= i < j < w.entries@.len() ==> #[trigger] w.entries@[i].id
                < #[trigger] w.entries@[j].id);
    }
}

/// An entry after the invulnerability pass: the window shortened by the
/// frame, and removed once it has run out.
pub open spec fn invuln_entry(e: Entry, dt: int) -> Entry {
    if e.c.invulnerable_delay is Some {
        let v = fx_sub_spec(e.c.invulnerable_delay->0 as int, dt);
        Entry {
            id: e.id,
            c: Components {
                invulnerable_delay: if v < 0 {
                    None
                } else {
                    Some(v as i64)
                },
                ..e.c
            },
        }
    } else {
        e
    }
}

/// Wind down every post-hit invulnerability window; a window that falls
/// below zero is detached, ending the immunity.
pub fn invulnerable_delay_update(w: &mut World, dt: i64)
    requires
        world_wf(*old(w)),
        in_fx(dt as int),
    ensures
        world_wf(*final(w)),
        final(w).next_id == old(w).next_id,
        final(w).entries@.len() == old(w).entries@.len(),
        forall|i: int|
            0 <= i < old(w).entries@.len() ==> final(w).entries@[i] == invuln_entry(
                #[trigger] old(w).entries@[i],
                dt as int,
            ),
{
    let ghost orig = w.entries@;
    let mut src: Vec<Entry> = Vec::new();
    core::mem::swap(&mut src, &mut w.entries);
    let mut out: Vec<Entry> = Vec::new();
    while src.len() > 0
        invariant
            out@.len() + src@.len() == orig.len(),
            src@ == orig.subrange(out@.len() as int, orig.len() as int),
            forall|k: int|
                0 <= k < out@.len() ==> out@[k] == invuln_entry(#[trigger] orig[k], dt as int),
            forall|k: int| 0 <= k < out@.len() ==> #[trigger] out@[k].id == orig[k].id,
            forall|k: int| 0 <= k < out@.len() ==> comps_in_fx(#[trigger] out@[k].c),
            ids_sorted(orig),
            forall|k: int| 0 <= k < orig.len() ==> comps_in_fx(#[trigger] orig[k].c),
            in_fx(dt as int),
        decreases src@.len(),
    {
        let mut e = src.remove(0);
        proof {
            assert(e == orig[out@.len() as int]);
            assert(src@ =~= orig.subrange(out@.len() as int + 1, orig.len() as int));
        }
        if e.c.invulnerable_delay.is_some() {
            let v = *e.c.invulnerable_delay.as_ref().unwrap();
            let v2 = fx_sub(v, dt);
            e.c.invulnerable_delay = if v2 < 0 {
                None
            } else {
                Some(v2)
            };
        }
        out.push(e);
    }
    w.entries = out;
    proof {
        assert(forall|i: int, j: int|
            0 <= i < j < w.entries@.len() ==> #[trigger] w.entries@[i].id
                < #[trigger] w.entries@[j].id);
    }
}

/// The culling rectangle: the arena with a margin all round, so bullets are
/// only considered gone well after they leave the visible field.
pub open spec fn cull_rect() -> Rect {
    Rect { x: (-40_000) as i64, y: (-40_000) as i64, w: 460_000, h: 488_000 }
}

/// Whether the culling pass concerns an entry: tagged to die off screen and
/// placed somewhere.
pub open spec fn cullable(e: Entry) -> bool {
    e.c.die_offscreen && e.c.transform is Some
}

/// Whether an entry is inside the culling rectangle.
pub open spec fn cull_inside(e: Entry) -> bool {
    rect_contains_spec(cull_rect(), (e.c.transform->0).position)
}

/// Whether the culling pass keeps an entry: everything but a cullable
/// entity that stands outside the rectangle after having once been seen
/// inside it.
pub open spec fn cull_keeps(e: Entry) -> bool {
    !(cullable(e) && !cull_inside(e) && e.c.been_on_screen == Some(true))
}

/// The entry after the culling pass: a cullable entity inside the rectangle
/// is marked as having been on screen.
pub open spec fn cull_mark(e: Entry) -> Entry {
    if cullable(e) && cull_inside(e) {
        Entry { id: e.id, c: Components { been_on_screen: Some(true), ..e.c } }
    } else {
        e
    }
}

/// The store contents after one culling pass.
pub open spec fn cull_seq(s: Seq<Entry>) -> Seq<Entry>
    decreases s.len(),
{
    if s.len() == 0 {
        Seq::empty()
    } else {
        cull_seq(s.subrange(0, s.len() - 1)) + if cull_keeps(s[s.len() - 1]) {
            seq![cull_mark(s[s.len() - 1])]
        } else {
            Seq::empty()
        }
    }
}

/// Despawn every entity tagged to die off screen that has left the culling
/// rectangle after having been inside it, and mark the ones currently
/// inside; an entity that has never been inside is left alone wherever it
/// stands.
pub fn delete_offscreen(w: &mut World)
    requires
        world_wf(*old(w)),
    ensures
        world_wf(*final(w)),
        final(w).next_id == old(w).next_id,
        final(w).entries@ =~= cull_seq(old(w).entries@),
{
    let ghost orig = w.entries@;
    let mut src: Vec<Entry> = Vec::new();
    core::mem::swap(&mut src, &mut w.entries);
    let mut out: Vec<Entry> = Vec::new();
    let container = Rect::new(-40_000, -40_000, 460_000, 488_000);
    while src.len() > 0
        invariant
            out@.len() <= orig.len() - src@.len(),
            src@ == orig.subrange((orig.len() - src@.len()) as int, orig.len() as int),
            out@ =~= cull_seq(orig.subrange(0, (orig.len() - src@.len()) as int)),
            ids_sorted(out@),
            forall|k: int| 0 <= k < out@.len() ==> comps_in_fx(#[trigger] out@[k].c),
            forall|k: int|
                0 <= k < out@.len() ==> #[trigger] out@[k].id < old(w).next_id,
            out@.len() > 0 && orig.len() > src@.len() ==> out@[out@.len() - 1].id <= orig[(
                orig.len() - src@.len() - 1) as int].id,
            ids_sorted(orig),
            forall|k: int| 0 <= k < orig.len() ==> comps_in_fx(#[trigger] orig[k].c),
            forall|k: int| 0 <= k < orig.len() ==> #[trigger] orig[k].id < old(w).next_id,
            container == cull_rect(),
        decreases src@.len(),
    {
        let ghost done = (orig.len() - src@.len()) as int;
        let mut e = src.remove(0);
        proof {
            assert(e == orig[done]);
            assert(src@ =~= orig.subrange(done + 1, orig.len() as int));
        }
        let keep: bool;
        let mut marked = false;
        if e.c.die_offscreen && e.c.transform.is_some() {
            let t = *e.c.transform.as_ref().unwrap();
            if container.contains(&t.position) {
                e.c.been_on_screen = Some(true);
                marked = true;
                keep = true;
            } else {
                let was_on = match e.c.been_on_screen {
                    Some(b) => b,
                    None => false,
                };
                keep = !was_on;
            }
        } else {
            keep = true;
        }
        proof {
            assert(keep == cull_keeps(orig[done]));
            if keep {
                assert(e == cull_mark(orig[done]));
            }
            assert(orig.subrange(0, done + 1).subrange(0, done) =~= orig.subrange(0, done));
            assert(orig.subrange(0, done + 1)[done] == orig[done]);
        }
        if keep {
            out.push(e);
        }
    }
    proof {
        assert(orig.subrange(0, orig.len() as int) =~= orig);
    }
    w.entries = out;
}

/// The culling two-state rule: an entity tagged to die off screen that
/// stands outside the rectangle but has never been seen inside it survives
/// the culling pass unchanged — only an exit after an entry despawns it.
pub proof fn lemma_cull_two_state(e: Entry)
    requires
        cullable(e),
        !cull_inside(e),
        e.c.been_on_screen != Some(true),
    ensures
        cull_keeps(e),
        cull_mark(e) == e,
{
}

/// One-shot audio cues the simulation asks the host to play.
#[derive(Clone, Copy, Debug, PartialEq, Eq, Structural)]
pub enum Cue {
    /// A bullet was fired.
    Shot,
    /// The player was hit and lost a life.
    PlayerHit,
    /// A boss phase ended.
    PhaseEnd,
    /// A menu selection moved or was accepted.
    Select,
    /// The numbered background track should start.
    Bgm(usize),
}

} // verus!
