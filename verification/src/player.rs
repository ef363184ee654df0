//! A player is known by the numeric id that the chat platform gave.

use vstd::prelude::*;

verus! {

#[derive(Copy, Clone, Debug, Eq, Hash, PartialEq, Structural)]
pub struct Player {
    pub id: u64,
}

impl Player {
    /// The player with the id `value`, as it is kept with the scores. Ids
    /// are kept as signed numbers and are never negative.
    pub fn from(value: i64) -> (p: Player)
        requires
            value >= 0,
        ensures
            p.id == value,
    {
        Player { id: value as u64 }
    }
}

} // verus!
