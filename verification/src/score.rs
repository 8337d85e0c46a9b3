//! The player's running tally: lives, bombs, score and power.

use vstd::prelude::*;
use crate::difficulty::Difficulty;
use crate::fx::in_fx;

verus! {

/// Counters the collision outcomes mutate; power is a fixed-point scalar.
#[derive(Clone, Copy, Debug)]
pub struct ScoreData {
    pub graze: i32,
    pub score: u64,
    pub power: i64,
    pub value: u64,
    pub life: i8,
    pub spell: i8,
    pub difficulty: Difficulty,
}

/// The tally's fixed-point fields are in range.
pub open spec fn score_in_fx(s: ScoreData) -> bool {
    in_fx(s.power as int)
}

impl ScoreData {
    /// A fresh tally at the given difficulty: three lives, three spell
    /// cards, unit power.
    pub fn new(difficulty: Difficulty) -> (r: ScoreData)
        ensures
            r == (ScoreData {
                graze: 0,
                score: 0,
                power: 1000,
                value: 10000,
                life: 3,
                spell: 3,
                difficulty,
            }),
            score_in_fx(r),
    {
        ScoreData { graze: 0, score: 0, power: 1000, value: 10000, life: 3, spell: 3, difficulty }
    }
}

impl Default for ScoreData {
    /// A fresh tally at normal difficulty.
    fn default() -> (r: ScoreData)
        ensures
            r == (ScoreData {
                graze: 0,
                score: 0,
                power: 1000,
                value: 10000,
                life: 3,
                spell: 3,
                difficulty: Difficulty::Normal,
            }),
            score_in_fx(r),
    {
        ScoreData::new(Difficulty::Normal)
    }
}

} // verus!
