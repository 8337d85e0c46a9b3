//! Difficulty levels.

use vstd::prelude::*;

verus! {

/// The four selectable difficulty levels.
#[derive(Clone, Copy, Debug, PartialEq, Eq, Structural)]
pub enum Difficulty {
    Easy,
    Normal,
    Hard,
    Lunatic,
}

impl Difficulty {
    /// Pick the value that belongs to this difficulty.
    #[inline(always)]
    pub fn difficulty_value<T>(&self, easy: T, normal: T, hard: T, lunatic: T) -> (r: T)
        ensures
            r == match *self {
                Difficulty::Easy => easy,
                Difficulty::Normal => normal,
                Difficulty::Hard => hard,
                Difficulty::Lunatic => lunatic,
            },
    {
        match self {
            Difficulty::Easy => easy,
            Difficulty::Normal => normal,
            Difficulty::Hard => hard,
            Difficulty::Lunatic => lunatic,
        }
    }

    /// The level's display name.
    pub fn as_str(&self) -> (r: &'static str)
        ensures
            self is Easy ==> r@ == "Easy"@,
            self is Normal ==> r@ == "Normal"@,
            self is Hard ==> r@ == "Hard"@,
            self is Lunatic ==> r@ == "Lunatic"@,
    {
        match self {
            Difficulty::Easy => "Easy",
            Difficulty::Normal => "Normal",
            Difficulty::Hard => "Hard",
            Difficulty::Lunatic => "Lunatic",
        }
    }
}

} // verus!
