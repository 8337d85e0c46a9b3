//! The player's attack slots.
//!
//! Each playable character owns a basic attack and a spell attack; a slot
//! pairs a cooldown with the character-specific behaviour tag that the spawn
//! pass dispatches over.

use vstd::prelude::*;
use crate::timer::{Cooldown, timer_in_fx};

verus! {

/// Basic-attack behaviours of the playable characters.
#[derive(Clone, Copy, Debug, PartialEq, Eq, Structural)]
pub enum BasicPlayerAttack {
    ReimuA,
}

/// Spell-attack behaviours of the playable characters.
#[derive(Clone, Copy, Debug, PartialEq, Eq, Structural)]
pub enum PlayerSpells {
    ReimuA,
}

/// A cooldown paired with a spawner behaviour.
#[derive(Clone, Copy, Debug)]
pub struct Attack<T>(pub Cooldown, pub T);

impl<T> Attack<T> {
    /// Pair a cooldown with a behaviour.
    pub fn new(cooldown: Cooldown, t: T) -> (r: Attack<T>)
        ensures
            r.0 == cooldown,
            r.1 == t,
    {
        Attack(cooldown, t)
    }
}

/// The player's basic-attack and spell-attack slots.
#[derive(Clone, Copy, Debug)]
pub struct PlayerAttack {
    pub basic: Attack<BasicPlayerAttack>,
    pub spells: Attack<PlayerSpells>,
}

/// Both slot cooldowns are in the fixed-point range.
pub open spec fn pa_in_fx(p: PlayerAttack) -> bool {
    timer_in_fx(p.basic.0.0) && timer_in_fx(p.spells.0.0)
}

impl PlayerAttack {
    /// Bundle the two slots.
    pub fn new(basic: Attack<BasicPlayerAttack>, spells: Attack<PlayerSpells>) -> (r:
        PlayerAttack)
        ensures
            r.basic == basic,
            r.spells == spells,
    {
        PlayerAttack { basic, spells }
    }
}

} // verus!
