//! One recorded attempt: who solved which day's puzzle in how many guesses.

use crate::player::Player;
use vstd::prelude::*;

verus! {

#[derive(Debug, PartialEq, Eq)]
pub struct Scoresheet {
    /// The number of the record, counted from 1 in the order of recording.
    pub id: i64,
    /// The message that reported the attempt.
    pub msg_id: i64,
    pub day: i64,
    pub player_id: i64,
    /// The number of guesses, `1` to `6`, or `0` for a failed attempt.
    pub score: i64,
    /// The cup that was played when the attempt was reported.
    pub cup_number: String,
}

/// A score sheet as a plain value.
pub struct ScoresheetView {
    pub id: i64,
    pub msg_id: i64,
    pub day: i64,
    pub player_id: i64,
    pub score: i64,
    pub cup_number: Seq<char>,
}

impl View for Scoresheet {
    type V = ScoresheetView;

    open spec fn view(&self) -> ScoresheetView {
        ScoresheetView {
            id: self.id,
            msg_id: self.msg_id,
            day: self.day,
            player_id: self.player_id,
            score: self.score,
            cup_number: self.cup_number@,
        }
    }
}

impl Clone for Scoresheet {
    fn clone(&self) -> (r: Self)
        ensures
            r@ == self@,
    {
        Scoresheet {
            id: self.id,
            msg_id: self.msg_id,
            day: self.day,
            player_id: self.player_id,
            score: self.score,
            cup_number: self.cup_number.clone(),
        }
    }
}

impl Scoresheet {
    pub fn player(&self) -> (p: Player)
        requires
            self.player_id >= 0,
        ensures
            p.id == self.player_id,
    {
        Player::from(self.player_id)
    }

    /// The id of the message as the chat platform writes it, unsigned.
    pub fn message_id(&self) -> (id: u64)
        ensures
            id == self.msg_id as u64,
    {
        self.msg_id as u64
    }

    pub fn score(&self) -> (score: i64)
        ensures
            score == self.score,
    {
        self.score
    }
}

/// The views of a list of score sheets, in the same order.
pub open spec fn sheet_views(sheets: Seq<Scoresheet>) -> Seq<ScoresheetView> {
    Seq::new(sheets.len(), |i: int| sheets[i]@)
}

} // verus!
