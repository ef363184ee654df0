//! The places of a day's ranking.

use vstd::prelude::*;

verus! {

#[derive(Debug, Hash, PartialEq, Eq, Copy, Clone, Structural)]
pub enum Placement {
    Gold,
    Silver,
    Bronze,
    Loser,
}

impl Placement {
    /// The slot of a day's high scores that decides who holds the placement.
    /// Those who lost have none.
    pub open spec fn slot(self) -> Option<int> {
        match self {
            Placement::Gold => Some(0),
            Placement::Silver => Some(1),
            Placement::Bronze => Some(2),
            Placement::Loser => None,
        }
    }

    /// The marker that is put on a message for the placement.
    pub open spec fn symbol(self) -> Seq<char> {
        match self {
            Placement::Gold => "🥇"@,
            Placement::Silver => "🥈"@,
            Placement::Bronze => "🥉"@,
            Placement::Loser => ":youtried:"@,
        }
    }

    pub fn to_string(&self) -> (s: String)
        ensures
            s@ == self.symbol(),
    {
        match self {
            Placement::Gold => String::from_str("🥇"),
            Placement::Silver => String::from_str("🥈"),
            Placement::Bronze => String::from_str("🥉"),
            Placement::Loser => String::from_str(":youtried:"),
        }
    }
}

} // verus!
