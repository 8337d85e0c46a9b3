//! The entity store.
//!
//! An entity is an identifier plus an open set of components; the store is a
//! vector of entries kept in strictly increasing identifier order, which is
//! spawn order. Systems read the entries in order — the lowest-numbered
//! matching entity is "first" — collect what they need, then write back,
//! following the snapshot-then-mutate discipline throughout.

use vstd::prelude::*;
use crate::attack::{bossmoves_in_fx, BossMoves};
use crate::components::{
    CircleHitbox, Focusable, focusable_in_fx, Hitpoint, hitbox_in_fx, hitpoint_in_fx, Sprite,
    Transform2D, transform_in_fx, Wanderable, wanderable_in_fx,
};
use crate::fx::in_fx;
use crate::motion::{mp_in_fx, MoveParams};
use crate::player::{pa_in_fx, PlayerAttack};

verus! {

/// Everything an entity may carry: marker tags as flags, data components as
/// options.
#[derive(Debug)]
pub struct Components {
    /// Belongs to the player's side.
    pub player: bool,
    /// Steered by the player's input.
    pub controllable: bool,
    /// Belongs to the enemy side.
    pub enemy: bool,
    /// Is a boss.
    pub boss: bool,
    /// Is a projectile.
    pub bullet: bool,
    /// Despawns after leaving the arena.
    pub die_offscreen: bool,
    /// Has been seen inside the arena since spawning.
    pub been_on_screen: Option<bool>,
    pub transform: Option<Transform2D>,
    pub move_params: Option<MoveParams>,
    pub sprite: Option<Sprite>,
    pub hitbox: Option<CircleHitbox>,
    pub hitpoint: Option<Hitpoint>,
    pub focusable: Option<Focusable>,
    pub wanderable: Option<Wanderable>,
    pub boss_moves: Option<BossMoves>,
    pub player_attack: Option<PlayerAttack>,
    /// Damage a player bullet deals on hit.
    pub damage: Option<i64>,
    /// Remaining seconds of post-hit invulnerability.
    pub invulnerable_delay: Option<i64>,
}

/// Every scalar in every attached component is in the fixed-point range.
pub open spec fn comps_in_fx(c: Components) -> bool {
    &&& c.transform is Some ==> transform_in_fx(c.transform->0)
    &&& c.move_params is Some ==> mp_in_fx(c.move_params->0)
    &&& c.hitbox is Some ==> hitbox_in_fx(c.hitbox->0)
    &&& c.hitpoint is Some ==> hitpoint_in_fx(c.hitpoint->0)
    &&& c.focusable is Some ==> focusable_in_fx(c.focusable->0)
    &&& c.wanderable is Some ==> wanderable_in_fx(c.wanderable->0)
    &&& c.boss_moves is Some ==> bossmoves_in_fx(c.boss_moves->0)
    &&& c.player_attack is Some ==> pa_in_fx(c.player_attack->0)
    &&& c.damage is Some ==> in_fx(c.damage->0 as int)
    &&& c.invulnerable_delay is Some ==> in_fx(c.invulnerable_delay->0 as int)
}

impl Components {
    /// No tags, no components.
    pub fn empty() -> (r: Components)
        ensures
            !r.player && !r.controllable && !r.enemy && !r.boss && !r.bullet
                && !r.die_offscreen,
            r.been_on_screen is None && r.transform is None && r.move_params is None
                && r.sprite is None && r.hitbox is None && r.hitpoint is None
                && r.focusable is None && r.wanderable is None && r.boss_moves is None
                && r.player_attack is None && r.damage is None
                && r.invulnerable_delay is None,
            comps_in_fx(r),
    {
        Components {
            player: false,
            controllable: false,
            enemy: false,
            boss: false,
            bullet: false,
            die_offscreen: false,
            been_on_screen: None,
            transform: None,
            move_params: None,
            sprite: None,
            hitbox: None,
            hitpoint: None,
            focusable: None,
            wanderable: None,
            boss_moves: None,
            player_attack: None,
            damage: None,
            invulnerable_delay: None,
        }
    }
}

/// One entity: its identifier and its components.
#[derive(Debug)]
pub struct Entry {
    pub id: u64,
    pub c: Components,
}

/// The store.
#[derive(Debug)]
pub struct World {
    /// Entries in strictly increasing identifier order.
    pub entries: Vec<Entry>,
    /// The identifier the next spawn takes.
    pub next_id: u64,
}

/// Identifiers strictly increase along a sequence of entries.
pub open spec fn ids_sorted(s: Seq<Entry>) -> bool {
    forall|i: int, j: int| 0 <= i < j < s.len() ==> #[trigger] s[i].id < #[trigger] s[j].id
}

/// The store invariant: identifiers strictly increasing and below the next
/// one to be handed out, every component in range.
pub open spec fn world_wf(w: World) -> bool {
    &&& ids_sorted(w.entries@)
    &&& forall|i: int| 0 <= i < w.entries@.len() ==> #[trigger] w.entries@[i].id < w.next_id
    &&& forall|i: int| 0 <= i < w.entries@.len() ==> comps_in_fx(#[trigger] w.entries@[i].c)
}

/// Whether some entry carries the identifier.
pub open spec fn has_id(s: Seq<Entry>, id: u64) -> bool {
    exists|i: int| 0 <= i < s.len() && #[trigger] s[i].id == id
}

impl World {
    /// An empty store.
    pub fn new() -> (r: World)
        ensures
            r.entries@.len() == 0,
            r.next_id == 0,
            world_wf(r),
    {
        World { entries: Vec::new(), next_id: 0 }
    }

    /// Number of entities.
    pub fn len(&self) -> (r: usize)
        ensures
            r == self.entries@.len(),
    {
        self.entries.len()
    }

    /// The entry at a position.
    pub fn get(&self, k: usize) -> (r: &Entry)
        requires
            k < self.entries@.len(),
        ensures
            *r == self.entries@[k as int],
    {
        &self.entries[k]
    }

    /// Attach a fresh identifier to the components and append the entity.
    pub fn spawn(&mut self, c: Components) -> (id: u64)
        requires
            world_wf(*old(self)),
            crate::world::comps_in_fx(c),
            old(self).next_id < 0xffff_ffff_ffff_ffff,
        ensures
            id == old(self).next_id,
            final(self).entries@.len() == old(self).entries@.len() + 1,
            final(self).entries@ == old(self).entries@.push(Entry { id, c }),
            final(self).next_id == old(self).next_id + 1,
            world_wf(*final(self)),
    {
        let id = self.next_id;
        self.entries.push(Entry { id, c });
        self.next_id = id + 1;
        id
    }

    /// Position of the entity with the identifier, if it is in the store.
    pub fn find(&self, id: u64) -> (r: Option<usize>)
        ensures
            match r {
                Some(k) => k < self.entries@.len() && self.entries@[k as int].id == id,
                None => !has_id(self.entries@, id),
            },
    {
        let mut k: usize = 0;
        while k < self.entries.len()
            invariant
                0 <= k <= self.entries@.len(),
                forall|j: int| 0 <= j < k ==> #[trigger] self.entries@[j].id != id,
            decreases self.entries@.len() - k,
        {
            if self.entries[k].id == id {
                return Some(k);
            }
            k = k + 1;
        }
        None
    }

    /// Remove the entity at a position.
    pub fn remove_at(&mut self, k: usize)
        requires
            world_wf(*old(self)),
            k < old(self).entries@.len(),
        ensures
            final(self).entries@ == old(self).entries@.remove(k as int),
            final(self).next_id == old(self).next_id,
            world_wf(*final(self)),
    {
        self.entries.remove(k);
    }

    /// Remove the entity with the identifier, if it is in the store; the
    /// position it held comes back.
    pub fn despawn(&mut self, id: u64) -> (r: Option<usize>)
        requires
            world_wf(*old(self)),
        ensures
            match r {
                Some(k) => k < old(self).entries@.len() && old(self).entries@[k as int].id == id
                    && final(self).entries@ == old(self).entries@.remove(k as int),
                None => !has_id(old(self).entries@, id) && *final(self) == *old(self),
            },
            final(self).next_id == old(self).next_id,
            world_wf(*final(self)),
    {
        let found = self.find(id);
        match found {
            Some(k) => {
                self.remove_at(k);
                Some(k)
            },
            None => None,
        }
    }


    /// Detach and hand out the entry at a position.
    pub fn take_at(&mut self, k: usize) -> (e: Entry)
        requires
            world_wf(*old(self)),
            k < old(self).entries@.len(),
        ensures
            e == old(self).entries@[k as int],
            final(self).entries@ == old(self).entries@.remove(k as int),
            final(self).next_id == old(self).next_id,
            world_wf(*final(self)),
    {
        self.entries.remove(k)
    }

    /// Put an entry back at a position; its identifier must fit between its
    /// neighbours.
    pub fn put_at(&mut self, k: usize, e: Entry)
        requires
            world_wf(*old(self)),
            k <= old(self).entries@.len(),
            k > 0 ==> old(self).entries@[k as int - 1].id < e.id,
            k < old(self).entries@.len() ==> e.id < old(self).entries@[k as int].id,
            e.id < old(self).next_id,
            crate::world::comps_in_fx(e.c),
        ensures
            final(self).entries@ == old(self).entries@.insert(k as int, e),
            final(self).next_id == old(self).next_id,
            world_wf(*final(self)),
    {
        self.entries.insert(k, e);
    }

    /// The components of the entity with the identifier, if it is in the
    /// store.
    pub fn lookup(&self, id: u64) -> (r: Option<&Components>)
        ensures
            match r {
                Some(c) => exists|k: int|
                    0 <= k < self.entries@.len() && #[trigger] self.entries@[k].id == id
                        && *c == self.entries@[k].c,
                None => !has_id(self.entries@, id),
            },
    {
        let found = self.find(id);
        match found {
            Some(k) => Some(&self.entries[k].c),
            None => None,
        }
    }
}

} // verus!
