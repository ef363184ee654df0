//! Watches for the end of a cup.
//!
//! The monitor holds the number of the cup that it last saw. Each time it
//! wakes it is told, or finds out, which cup is played now. When that is no
//! longer the cup it holds, the held cup has ended: the monitor says so once,
//! with the player who led it, and holds the new cup from then on.

use crate::cup::{current_cup_number, is_cup_key};
use crate::database::{Database, WindowView};
use crate::leaderboard::{is_leader, nobody_scored};
use crate::player::Player;
use vstd::prelude::*;

verus! {

/// A cup has ended.
#[derive(Debug, PartialEq, Eq)]
pub struct CupEnded {
    /// The number of the cup that ended.
    pub cup_number: String,
    /// The player who led the cup when it ended, if anybody had points.
    pub winner: Option<Player>,
}

pub struct CupMonitor {
    current_cup: String,
}

impl View for CupMonitor {
    type V = Seq<char>;

    /// The number of the cup that the monitor holds.
    closed spec fn view(&self) -> Seq<char> {
        self.current_cup@
    }
}

/// What a wake of the monitor has to bring when it held `held` and the cup
/// `now` is played: nothing while the cup is the same, else the end of the
/// held cup with its leader.
pub open spec fn announces(
    db: crate::database::DatabaseView,
    held: Seq<char>,
    now: Seq<char>,
    event: Option<CupEnded>,
) -> bool {
    if held == now {
        event is None
    } else {
        &&& event is Some
        &&& event.unwrap().cup_number@ == held
        &&& event.unwrap().winner is None <==> nobody_scored(db, WindowView::Cup(held))
        &&& event.unwrap().winner matches Some(player) ==> is_leader(
            db,
            WindowView::Cup(held),
            player,
        )
    }
}

impl CupMonitor {
    /// A monitor that holds the cup `cup_number`.
    pub fn new(cup_number: String) -> (monitor: CupMonitor)
        ensures
            monitor@ == cup_number@,
    {
        CupMonitor { current_cup: cup_number }
    }

    /// A monitor that holds the cup that is played now.
    pub fn start() -> (monitor: CupMonitor)
        ensures
            is_cup_key(monitor@),
    {
        CupMonitor { current_cup: current_cup_number() }
    }

    /// The number of the cup that the monitor holds.
    pub fn current_cup(&self) -> (cup_number: String)
        ensures
            cup_number@ == self@,
    {
        self.current_cup.clone()
    }

    /// One wake of the monitor, at a time when the cup `cup` is played.
    ///
    /// If the monitor holds another cup, that cup has ended: its end is
    /// returned, with the player who leads it, and the monitor holds `cup`
    /// from now on. A second wake in the same cup returns nothing.
    pub fn check_for_cup_winner(&mut self, database: &Database, cup: String) -> (event: Option<
        CupEnded,
    >)
        requires
            database.wf(),
        ensures
            final(self)@ == cup@,
            announces(database@, old(self)@, cup@, event),
    {
        if self.current_cup == cup {
            return None;
        }
        let winner = database.cup_leader(self.current_cup.as_str());
        let ended = self.current_cup.clone();
        self.current_cup = cup;
        Some(CupEnded { cup_number: ended, winner })
    }

    /// One wake of the monitor, which finds out by the clock which cup is
    /// played.
    pub fn wake(&mut self, database: &Database) -> (event: Option<CupEnded>)
        requires
            database.wf(),
        ensures
            is_cup_key(final(self)@),
            announces(database@, old(self)@, final(self)@, event),
    {
        let cup = current_cup_number();
        self.check_for_cup_winner(database, cup)
    }
}

} // verus!
