//! The score store: the players, the days with their high scores, and the
//! score sheets, with the queries that medals and leaderboards are made of.
//!
//! The store holds at most one score sheet per day and player: whoever hands
//! in a second result for a day is ignored. A score sheet can only be kept
//! for a player and a day that the store knows.

use crate::error::{Error, Result};
use crate::high_scores::{holds_guesses, no_high_scores, valid_high_scores};
use crate::placement::Placement;
use crate::scoresheet::{sheet_views, Scoresheet, ScoresheetView};
use vstd::prelude::*;

verus! {

/// The number of score sheets that the store takes. With that many, the
/// points of a single player still fit in a `u32`.
pub const MAX_SCORE_SHEETS: usize = 330_382_099;

/// The score sheets that a query looks at.
pub enum Window {
    /// Every score sheet.
    All,
    /// The score sheets of the given day and of those after it.
    FromDay(i64),
    /// The score sheets of the given cup.
    Cup(String),
}

/// A window as a plain value.
pub enum WindowView {
    All,
    FromDay(i64),
    Cup(Seq<char>),
}

impl View for Window {
    type V = WindowView;

    open spec fn view(&self) -> WindowView {
        match self {
            Window::All => WindowView::All,
            Window::FromDay(day) => WindowView::FromDay(*day),
            Window::Cup(cup_number) => WindowView::Cup(cup_number@),
        }
    }
}

impl WindowView {
    /// Whether the score sheet lies in the window.
    pub open spec fn takes(self, sheet: ScoresheetView) -> bool {
        match self {
            WindowView::All => true,
            WindowView::FromDay(day) => sheet.day >= day,
            WindowView::Cup(cup_number) => sheet.cup_number == cup_number,
        }
    }
}

impl Window {
    fn takes(&self, sheet: &Scoresheet) -> (r: bool)
        ensures
            r == self@.takes(sheet@),
    {
        match self {
            Window::All => true,
            Window::FromDay(day) => sheet.day >= *day,
            Window::Cup(cup_number) => sheet.cup_number == *cup_number,
        }
    }
}

/// A day with its high scores, as a plain value.
pub struct DailyView {
    pub id: i64,
    pub high_scores: Seq<Option<i64>>,
}

/// The content of the store, as a plain value: its three tables, each in the
/// order in which the rows came in.
pub struct DatabaseView {
    pub players: Seq<i64>,
    pub dailies: Seq<DailyView>,
    pub score_sheets: Seq<ScoresheetView>,
}

impl DatabaseView {
    /// Whether the store knows the player.
    pub open spec fn has_player(self, player_id: i64) -> bool {
        self.players.contains(player_id)
    }

    /// Whether the store knows the day.
    pub open spec fn has_daily(self, day: i64) -> bool {
        exists|i: int| 0 <= i < self.dailies.len() && (#[trigger] self.dailies[i]).id == day
    }

    /// The high scores of the day, if the store knows the day.
    pub open spec fn high_scores(self, day: i64) -> Option<Seq<Option<i64>>> {
        if self.has_daily(day) {
            let i = choose|i: int|
                0 <= i < self.dailies.len() && (#[trigger] self.dailies[i]).id == day;
            Some(self.dailies[i].high_scores)
        } else {
            None
        }
    }

    /// Whether the player has a score sheet for the day.
    pub open spec fn has_score_sheet(self, day: i64, player_id: i64) -> bool {
        exists|i: int|
            0 <= i < self.score_sheets.len() && (#[trigger] self.score_sheets[i]).day == day
                && self.score_sheets[i].player_id == player_id
    }

    /// `sheet` is the score sheet of the player for the day: the first that
    /// the store holds for them. A well-formed store holds no second.
    pub open spec fn is_score_sheet_of(self, day: i64, player_id: i64, sheet: ScoresheetView) -> bool {
        exists|i: int|
            0 <= i < self.score_sheets.len() && #[trigger] self.score_sheets[i] == sheet
                && sheet.day == day && sheet.player_id == player_id && forall|k: int|
                0 <= k < i ==> !((#[trigger] self.score_sheets[k]).day == day
                    && self.score_sheets[k].player_id == player_id)
    }

    /// `day` is the latest day that the store knows: the one with the
    /// highest number.
    pub open spec fn is_latest_day(self, day: i64) -> bool {
        &&& self.has_daily(day)
        &&& forall|i: int| 0 <= i < self.dailies.len() ==> (#[trigger] self.dailies[i]).id <= day
    }

    /// The latest day that the store knows, if it knows any.
    pub open spec fn latest_day(self) -> Option<i64> {
        if self.dailies.len() == 0 {
            None
        } else {
            Some(choose|day: i64| self.is_latest_day(day))
        }
    }

    /// The score sheet at `i` is one that the store may hold there.
    pub open spec fn sheet_fits(self, i: int) -> bool {
        let sheet = self.score_sheets[i];
        &&& sheet.id == i + 1
        &&& 0 <= sheet.score <= 6
        &&& sheet.player_id >= 0
        &&& self.has_player(sheet.player_id)
        &&& self.has_daily(sheet.day)
    }

    /// What holds of the store at all times.
    pub open spec fn wf(self) -> bool {
        &&& self.players.no_duplicates()
        &&& forall|i: int| 0 <= i < self.players.len() ==> #[trigger] self.players[i] >= 0
        &&& forall|i: int, j: int|
            0 <= i < j < self.dailies.len() ==> (#[trigger] self.dailies[i]).id != (
            #[trigger] self.dailies[j]).id
        &&& forall|i: int|
            0 <= i < self.dailies.len() ==> valid_high_scores(
                (#[trigger] self.dailies[i]).high_scores,
            ) && holds_guesses(self.dailies[i].high_scores)
        &&& self.score_sheets.len() <= MAX_SCORE_SHEETS
        &&& forall|i: int| 0 <= i < self.score_sheets.len() ==> #[trigger] self.sheet_fits(i)
        &&& forall|i: int, j: int|
            0 <= i < j < self.score_sheets.len() ==> !((#[trigger] self.score_sheets[i]).day == (
            #[trigger] self.score_sheets[j]).day && self.score_sheets[i].player_id
                == self.score_sheets[j].player_id)
    }

    /// The score sheets of the player that lie in the window, in the order
    /// in which they were kept.
    pub open spec fn sheets_of(self, player_id: i64, window: WindowView) -> Seq<ScoresheetView> {
        self.score_sheets.filter(
            |sheet: ScoresheetView| sheet.player_id == player_id && window.takes(sheet),
        )
    }

    /// The scores of the player in the window, in the order in which they
    /// were kept.
    pub open spec fn scores(self, player_id: i64, window: WindowView) -> Seq<i64> {
        self.sheets_of(player_id, window).map_values(|sheet: ScoresheetView| sheet.score)
    }

    /// The day that a query for medals looks at, the latest one if none is
    /// given, and the score that earns the placement there. There is none
    /// while the store does not know the day or the day's slot for the
    /// placement is empty.
    pub open spec fn medal_score(self, day: Option<i64>, placement: Placement) -> Option<
        (i64, i64),
    > {
        let day = if day is Some { day } else { self.latest_day() };
        if day is Some && self.high_scores(day.unwrap()) is Some && placement.slot() is Some
            && self.high_scores(day.unwrap()).unwrap()[placement.slot().unwrap()] is Some {
            Some(
                (
                    day.unwrap(),
                    self.high_scores(day.unwrap()).unwrap()[placement.slot().unwrap()].unwrap(),
                ),
            )
        } else {
            None
        }
    }

    /// The score sheets that hold the placement of the day: those of the day
    /// whose score is the high score of the placement's slot. There is no
    /// answer while that slot is empty.
    pub open spec fn medalists(self, day: Option<i64>, placement: Placement) -> Option<
        Seq<ScoresheetView>,
    > {
        match self.medal_score(day, placement) {
            Some((day, score)) => Some(
                self.score_sheets.filter(
                    |sheet: ScoresheetView| sheet.day == day && sheet.score == score,
                ),
            ),
            None => None,
        }
    }

    /// Whether the score sheet holds the placement of its day.
    pub open spec fn earns(self, sheet: ScoresheetView, placement: Placement) -> bool {
        self.medal_score(Some(sheet.day), placement) == Some((sheet.day, sheet.score))
    }

    /// The number of days on which the player holds the placement.
    pub open spec fn medals(self, player_id: i64, placement: Placement) -> nat {
        self.score_sheets.filter(
            |sheet: ScoresheetView| sheet.player_id == player_id && self.earns(sheet, placement),
        ).len()
    }

    /// What becomes of a score that is handed in for `day` by `player_id`:
    /// it is kept (`true`), it is passed over because the player already has
    /// a score sheet for the day (`false`), or it is refused.
    pub open spec fn admission(self, day: i64, player_id: i64) -> Result<bool> {
        if !self.has_player(player_id) || !self.has_daily(day) {
            Err(Error::PrecursorMissing)
        } else if self.has_score_sheet(day, player_id) {
            Ok(false)
        } else if self.score_sheets.len() >= MAX_SCORE_SHEETS {
            Err(Error::StorageFull)
        } else {
            Ok(true)
        }
    }

    /// The store with one more score sheet, numbered after those it holds.
    pub open spec fn with_score_sheet(
        self,
        msg_id: i64,
        day: i64,
        player_id: i64,
        score: i64,
        cup_number: Seq<char>,
    ) -> DatabaseView {
        DatabaseView {
            score_sheets: self.score_sheets.push(
                ScoresheetView {
                    id: (self.score_sheets.len() + 1) as i64,
                    msg_id,
                    day,
                    player_id,
                    score,
                    cup_number,
                },
            ),
            ..self
        }
    }

    /// The store with `player_id` among its players.
    pub open spec fn with_player(self, player_id: i64) -> DatabaseView {
        if self.has_player(player_id) {
            self
        } else {
            DatabaseView { players: self.players.push(player_id), ..self }
        }
    }

    /// The store with `day` among its days. A day that is new has no high
    /// scores yet.
    pub open spec fn with_daily(self, day: i64) -> DatabaseView {
        if self.has_daily(day) {
            self
        } else {
            DatabaseView {
                dailies: self.dailies.push(DailyView { id: day, high_scores: no_high_scores() }),
                ..self
            }
        }
    }

    /// The store with the high scores of `day` replaced. Nothing changes if
    /// the store does not know the day.
    pub open spec fn with_high_scores(self, day: i64, high_scores: Seq<Option<i64>>) -> DatabaseView {
        DatabaseView {
            dailies: Seq::new(
                self.dailies.len(),
                |i: int|
                    if self.dailies[i].id == day {
                        DailyView { id: day, high_scores }
                    } else {
                        self.dailies[i]
                    },
            ),
            ..self
        }
    }
}

impl DatabaseView {
    /// The high scores of a day that the store knows are those in its row.
    pub proof fn lemma_high_scores_at(self, i: int)
        requires
            self.wf(),
            0 <= i < self.dailies.len(),
        ensures
            self.has_daily(self.dailies[i].id),
            self.high_scores(self.dailies[i].id) == Some(self.dailies[i].high_scores),
    {
        let day = self.dailies[i].id;
        let k = choose|k: int| 0 <= k < self.dailies.len() && (#[trigger] self.dailies[k]).id == day;
        assert(k == i);
    }

    /// Making a player known a second time changes nothing, and so does
    /// making a day known a second time.
    pub proof fn lemma_known_stays_known(self, player_id: i64, day: i64)
        ensures
            self.with_player(player_id).with_player(player_id) == self.with_player(player_id),
            self.with_daily(day).with_daily(day) == self.with_daily(day),
    {
        if !self.has_player(player_id) {
            assert(self.with_player(player_id).players[self.players.len() as int] == player_id);
        }
        if !self.has_daily(day) {
            assert(self.with_daily(day).dailies[self.dailies.len() as int].id == day);
        }
    }

    /// Making a player known keeps the store well-formed, and changes
    /// nothing about the days and the score sheets.
    pub proof fn lemma_with_player(self, player_id: i64)
        requires
            self.wf(),
            player_id >= 0,
        ensures
            self.with_player(player_id).wf(),
            self.with_player(player_id).has_player(player_id),
            self.with_player(player_id).dailies == self.dailies,
            self.with_player(player_id).score_sheets == self.score_sheets,
    {
        let after = self.with_player(player_id);
        if !self.has_player(player_id) {
            assert(after.players[self.players.len() as int] == player_id);
            assert forall|i: int| 0 <= i < after.score_sheets.len() implies #[trigger]
                after.sheet_fits(i) by {
                assert(self.sheet_fits(i));
                let p = self.score_sheets[i].player_id;
                let k = choose|k: int| 0 <= k < self.players.len() && self.players[k] == p;
                assert(after.players[k] == p);
                let d = self.score_sheets[i].day;
                let j = choose|j: int|
                    0 <= j < self.dailies.len() && (#[trigger] self.dailies[j]).id == d;
                assert(after.dailies[j].id == d);
            }
        }
    }

    /// Making a day known keeps the store well-formed, and changes nothing
    /// about the players, the score sheets and the days that it knew.
    pub proof fn lemma_with_daily(self, day: i64)
        requires
            self.wf(),
        ensures
            self.with_daily(day).wf(),
            self.with_daily(day).has_daily(day),
            self.with_daily(day).players == self.players,
            self.with_daily(day).score_sheets == self.score_sheets,
            forall|other: i64| self.has_daily(other) ==> self.with_daily(day).has_daily(other),
    {
        let after = self.with_daily(day);
        if !self.has_daily(day) {
            assert(after.dailies[self.dailies.len() as int].id == day);
            assert forall|i: int| 0 <= i < after.score_sheets.len() implies #[trigger]
                after.sheet_fits(i) by {
                assert(self.sheet_fits(i));
                let d = self.score_sheets[i].day;
                let k = choose|k: int|
                    0 <= k < self.dailies.len() && (#[trigger] self.dailies[k]).id == d;
                assert(after.dailies[k].id == d);
            }
            assert forall|other: i64| self.has_daily(other) implies after.has_daily(other) by {
                let k = choose|k: int|
                    0 <= k < self.dailies.len() && (#[trigger] self.dailies[k]).id == other;
                assert(after.dailies[k].id == other);
            }
        }
    }

    /// Keeping a score sheet that the store admits keeps the store
    /// well-formed.
    pub proof fn lemma_with_score_sheet(
        self,
        msg_id: i64,
        day: i64,
        player_id: i64,
        score: i64,
        cup_number: Seq<char>,
    )
        requires
            self.wf(),
            0 <= score <= 6,
            self.admission(day, player_id) == Ok::<bool, Error>(true),
        ensures
            self.with_score_sheet(msg_id, day, player_id, score, cup_number).wf(),
    {
        let after = self.with_score_sheet(msg_id, day, player_id, score, cup_number);
        let k = choose|k: int| 0 <= k < self.players.len() && self.players[k] == player_id;
        assert(self.players[k] >= 0);
        assert forall|i: int| 0 <= i < after.score_sheets.len() implies #[trigger] after.sheet_fits(
            i,
        ) by {
            let d = after.score_sheets[i].day;
            if i < self.score_sheets.len() {
                assert(self.sheet_fits(i));
            }
            let j = choose|j: int|
                0 <= j < self.dailies.len() && (#[trigger] self.dailies[j]).id == d;
            assert(after.dailies[j].id == d);
        }
        assert forall|i: int, j: int| 0 <= i < j < after.score_sheets.len() implies !((
        #[trigger] after.score_sheets[i]).day == (#[trigger] after.score_sheets[j]).day
            && after.score_sheets[i].player_id == after.score_sheets[j].player_id) by {
            if j == self.score_sheets.len() {
                assert(self.score_sheets[i].day == after.score_sheets[i].day);
            }
        }
    }

    /// Replacing the high scores of a day keeps the store well-formed, and
    /// changes the high scores of that day only.
    pub proof fn lemma_with_high_scores(self, day: i64, high_scores: Seq<Option<i64>>)
        requires
            self.wf(),
            valid_high_scores(high_scores),
            holds_guesses(high_scores),
        ensures
            self.with_high_scores(day, high_scores).wf(),
            self.with_high_scores(day, high_scores).players == self.players,
            self.with_high_scores(day, high_scores).score_sheets == self.score_sheets,
            self.with_high_scores(day, high_scores).dailies.len() == self.dailies.len(),
            !self.has_daily(day) ==> self.with_high_scores(day, high_scores) == self,
            forall|other: i64|
                self.has_daily(other) <==> self.with_high_scores(day, high_scores).has_daily(other),
    {
        let after = self.with_high_scores(day, high_scores);
        assert forall|i: int| 0 <= i < after.score_sheets.len() implies #[trigger] after.sheet_fits(
            i,
        ) by {
            assert(self.sheet_fits(i));
            let d = self.score_sheets[i].day;
            let j = choose|j: int|
                0 <= j < self.dailies.len() && (#[trigger] self.dailies[j]).id == d;
            assert(after.dailies[j].id == d);
        }
        assert forall|other: i64| self.has_daily(other) <==> after.has_daily(other) by {
            if self.has_daily(other) {
                let j = choose|j: int|
                    0 <= j < self.dailies.len() && (#[trigger] self.dailies[j]).id == other;
                assert(after.dailies[j].id == other);
            }
            if after.has_daily(other) {
                let j = choose|j: int|
                    0 <= j < after.dailies.len() && (#[trigger] after.dailies[j]).id == other;
                assert(self.dailies[j].id == other);
            }
        }
        if !self.has_daily(day) {
            assert(after.dailies =~= self.dailies);
        }
    }
}

/// `found` answers who holds the placement of the day, or of the latest day
/// if none is given: the score sheets that hold it, or nothing while the
/// placement is not decided.
pub open spec fn is_medalists(
    db: DatabaseView,
    day: Option<i64>,
    placement: Placement,
    found: Option<Vec<Scoresheet>>,
) -> bool {
    match found {
        Some(score_sheets) => db.medalists(day, placement) == Some(sheet_views(score_sheets@)),
        None => db.medalists(day, placement) is None,
    }
}

/// A day with its high scores.
struct Daily {
    id: i64,
    high_scores: [Option<i64>; 3],
}

pub struct Database {
    players: Vec<i64>,
    dailies: Vec<Daily>,
    score_sheets: Vec<Scoresheet>,
}

impl View for Database {
    type V = DatabaseView;

    closed spec fn view(&self) -> DatabaseView {
        DatabaseView {
            players: self.players@,
            dailies: Seq::new(
                self.dailies@.len(),
                |i: int| DailyView { id: self.dailies@[i].id, high_scores: self.dailies@[i].high_scores@ },
            ),
            score_sheets: Seq::new(self.score_sheets@.len(), |i: int| self.score_sheets@[i]@),
        }
    }
}

impl Database {
    /// What holds of the store at all times.
    pub open spec fn wf(&self) -> bool {
        self@.wf()
    }

    /// A store that holds nothing.
    pub fn new() -> (db: Database)
        ensures
            db.wf(),
            db@.players.len() == 0,
            db@.dailies.len() == 0,
            db@.score_sheets.len() == 0,
    {
        Database { players: Vec::new(), dailies: Vec::new(), score_sheets: Vec::new() }
    }

    /// Where the day stands among the days, if the store knows it.
    fn find_daily(&self, day: i64) -> (r: Option<usize>)
        ensures
            r is Some <==> self@.has_daily(day),
            r matches Some(i) ==> i < self@.dailies.len() && self@.dailies[i as int].id == day,
    {
        let mut i: usize = 0;
        while i < self.dailies.len()
            invariant
                i <= self.dailies.len(),
                forall|k: int| 0 <= k < i ==> (#[trigger] self@.dailies[k]).id != day,
            decreases self.dailies.len() - i,
        {
            if self.dailies[i].id == day {
                assert(self@.dailies[i as int].id == day);
                return Some(i);
            }
            i += 1;
        }
        None
    }

    /// Whether the player stands among the players.
    fn find_player(&self, player_id: i64) -> (r: bool)
        ensures
            r == self@.has_player(player_id),
    {
        let mut i: usize = 0;
        while i < self.players.len()
            invariant
                i <= self.players.len(),
                forall|k: int| 0 <= k < i ==> self.players@[k] != player_id,
            decreases self.players.len() - i,
        {
            if self.players[i] == player_id {
                return true;
            }
            i += 1;
        }
        false
    }

    /// Makes the player known to the store. Nothing changes if it is known.
    pub fn new_player(&mut self, player_id: i64)
        requires
            old(self).wf(),
            player_id >= 0,
        ensures
            final(self).wf(),
            final(self)@ == old(self)@.with_player(player_id),
    {
        proof {
            old(self)@.lemma_with_player(player_id);
        }
        if !self.find_player(player_id) {
            self.players.push(player_id);
        }
    }

    /// Makes the day known to the store, without high scores. Nothing
    /// changes if it is known.
    pub fn new_daily(&mut self, day: i64)
        requires
            old(self).wf(),
        ensures
            final(self).wf(),
            final(self)@ == old(self)@.with_daily(day),
    {
        proof {
            old(self)@.lemma_with_daily(day);
        }
        if self.find_daily(day).is_none() {
            self.dailies.push(Daily { id: day, high_scores: [None, None, None] });
            proof {
                assert(self@.dailies =~= old(self)@.dailies.push(
                    DailyView { id: day, high_scores: no_high_scores() },
                ));
            }
        }
    }

    /// The latest day that the store knows: the one with the highest number.
    pub fn get_daily_day(&self) -> (r: Option<i64>)
        ensures
            r == self@.latest_day(),
            r matches Some(day) ==> self@.is_latest_day(day),
    {
        if self.dailies.len() == 0 {
            return None;
        }
        let mut latest: i64 = self.dailies[0].id;
        let mut i: usize = 1;
        assert(self@.dailies[0].id == latest);
        while i < self.dailies.len()
            invariant
                1 <= i <= self.dailies.len(),
                self@.has_daily(latest),
                forall|k: int| 0 <= k < i ==> (#[trigger] self@.dailies[k]).id <= latest,
            decreases self.dailies.len() - i,
        {
            if self.dailies[i].id > latest {
                latest = self.dailies[i].id;
                assert(self@.dailies[i as int].id == latest);
            }
            i += 1;
        }
        proof {
            assert(self@.is_latest_day(latest));
            let chosen = choose|day: i64| self@.is_latest_day(day);
            assert(self@.is_latest_day(chosen));
            let a = choose|a: int|
                0 <= a < self@.dailies.len() && (#[trigger] self@.dailies[a]).id == chosen;
            let b = choose|b: int|
                0 <= b < self@.dailies.len() && (#[trigger] self@.dailies[b]).id == latest;
            assert(self@.dailies[a].id <= latest);
            assert(self@.dailies[b].id <= chosen);
        }
        Some(latest)
    }

    /// The high scores of the day, if the store knows the day.
    pub fn get_daily_high_scores(&self, day: i64) -> (r: Option<[Option<i64>; 3]>)
        requires
            self.wf(),
        ensures
            r is Some <==> self@.has_daily(day),
            r matches Some(high_scores) ==> Some(high_scores@) == self@.high_scores(day)
                && valid_high_scores(high_scores@) && holds_guesses(high_scores@),
    {
        match self.find_daily(day) {
            Some(i) => {
                proof {
                    self@.lemma_high_scores_at(i as int);
                }
                Some(self.dailies[i].high_scores)
            },
            None => None,
        }
    }

    /// Whether the player has a score sheet for the day.
    fn find_score_sheet(&self, day: i64, player_id: i64) -> (r: bool)
        ensures
            r == self@.has_score_sheet(day, player_id),
    {
        let mut i: usize = 0;
        while i < self.score_sheets.len()
            invariant
                i <= self.score_sheets.len(),
                forall|k: int|
                    0 <= k < i ==> !((#[trigger] self@.score_sheets[k]).day == day
                        && self@.score_sheets[k].player_id == player_id),
            decreases self.score_sheets.len() - i,
        {
            if self.score_sheets[i].day == day && self.score_sheets[i].player_id == player_id {
                assert(self@.score_sheets[i as int].day == day);
                return true;
            }
            i += 1;
        }
        false
    }

    /// The score sheet of the player for the day, if there is one.
    pub fn get_score_sheet(&self, day: i64, player_id: i64) -> (r: Option<Scoresheet>)
        ensures
            r is Some <==> self@.has_score_sheet(day, player_id),
            r matches Some(sheet) ==> self@.is_score_sheet_of(day, player_id, sheet@),
    {
        let mut i: usize = 0;
        while i < self.score_sheets.len()
            invariant
                i <= self.score_sheets.len(),
                forall|k: int|
                    0 <= k < i ==> !((#[trigger] self@.score_sheets[k]).day == day
                        && self@.score_sheets[k].player_id == player_id),
            decreases self.score_sheets.len() - i,
        {
            if self.score_sheets[i].day == day && self.score_sheets[i].player_id == player_id {
                let sheet = self.score_sheets[i].clone();
                assert(self@.score_sheets[i as int] == sheet@);
                return Some(sheet);
            }
            i += 1;
        }
        None
    }

    /// Keeps a score sheet for the score that `player_id` handed in for
    /// `day`, unless the player has one for that day: the first result of a
    /// day stands. Returns whether the score sheet was kept.
    ///
    /// The day and the player have to be known to the store, else the score
    /// is refused and nothing changes.
    pub fn new_score_sheet(
        &mut self,
        msg_id: i64,
        day: i64,
        player_id: i64,
        score: i64,
        cup_number: String,
    ) -> (r: Result<bool>)
        requires
            old(self).wf(),
            0 <= score <= 6,
        ensures
            final(self).wf(),
            r == old(self)@.admission(day, player_id),
            final(self)@ == (if r == Ok::<bool, Error>(true) {
                old(self)@.with_score_sheet(msg_id, day, player_id, score, cup_number@)
            } else {
                old(self)@
            }),
    {
        if !self.find_player(player_id) || self.find_daily(day).is_none() {
            return Err(Error::PrecursorMissing);
        }
        if self.find_score_sheet(day, player_id) {
            return Ok(false);
        }
        if self.score_sheets.len() >= MAX_SCORE_SHEETS {
            return Err(Error::StorageFull);
        }
        let id: i64 = (self.score_sheets.len() + 1) as i64;
        self.score_sheets.push(Scoresheet { id, msg_id, day, player_id, score, cup_number });
        proof {
            old(self)@.lemma_with_score_sheet(msg_id, day, player_id, score, cup_number@);
            assert(self@.score_sheets =~= old(self)@.with_score_sheet(
                msg_id,
                day,
                player_id,
                score,
                cup_number@,
            ).score_sheets);
        }
        Ok(true)
    }

    /// Replaces the high scores of the day. Nothing changes if the store
    /// does not know the day.
    pub fn update_daily(
        &mut self,
        day: i64,
        gold: Option<i64>,
        silver: Option<i64>,
        bronze: Option<i64>,
    )
        requires
            old(self).wf(),
            valid_high_scores(seq![gold, silver, bronze]),
            holds_guesses(seq![gold, silver, bronze]),
        ensures
            final(self).wf(),
            final(self)@ == old(self)@.with_high_scores(day, seq![gold, silver, bronze]),
    {
        proof {
            old(self)@.lemma_with_high_scores(day, seq![gold, silver, bronze]);
        }
        match self.find_daily(day) {
            Some(i) => {
                self.dailies.set(i, Daily { id: day, high_scores: [gold, silver, bronze] });
                proof {
                    let wanted = old(self)@.with_high_scores(day, seq![gold, silver, bronze]);
                    assert(self@.dailies =~= wanted.dailies);
                }
            },
            None => {},
        }
    }

    /// The players that the store knows, in the order in which they came.
    pub fn get_players(&self) -> (r: Vec<i64>)
        ensures
            r@ == self@.players,
    {
        let mut players: Vec<i64> = Vec::new();
        let mut i: usize = 0;
        while i < self.players.len()
            invariant
                i <= self.players.len(),
                players@ == self.players@.take(i as int),
            decreases self.players.len() - i,
        {
            players.push(self.players[i]);
            proof {
                self.players@.lemma_take_succ_push(i as int);
            }
            i += 1;
        }
        players
    }

    /// The scores of the player in the window, in the order in which they
    /// were kept.
    pub fn get_scores(&self, player_id: i64, window: &Window) -> (r: Vec<i64>)
        requires
            self.wf(),
        ensures
            r@ == self@.scores(player_id, window@),
            r.len() <= MAX_SCORE_SHEETS,
            forall|i: int| 0 <= i < r.len() ==> 0 <= #[trigger] r[i] <= 6,
    {
        let ghost wanted = |sheet: ScoresheetView|
            sheet.player_id == player_id && window@.takes(sheet);
        let ghost score = |sheet: ScoresheetView| sheet.score;
        let mut scores: Vec<i64> = Vec::new();
        let mut i: usize = 0;
        proof {
            reveal(Seq::filter);
        }
        while i < self.score_sheets.len()
            invariant
                self.wf(),
                i <= self.score_sheets.len(),
                scores.len() <= i,
                wanted == |sheet: ScoresheetView|
                    sheet.player_id == player_id && window@.takes(sheet),
                score == |sheet: ScoresheetView| sheet.score,
                scores@ == self@.score_sheets.take(i as int).filter(wanted).map_values(score),
                forall|k: int| 0 <= k < scores.len() ==> 0 <= #[trigger] scores[k] <= 6,
            decreases self.score_sheets.len() - i,
        {
            let sheet = &self.score_sheets[i];
            proof {
                let seen = self@.score_sheets.take(i as int);
                self@.score_sheets.lemma_take_succ_push(i as int);
                seen.lemma_filter_push(self@.score_sheets[i as int], wanted);
                seen.filter(wanted).lemma_push_map_commute(score, self@.score_sheets[i as int]);
                assert(self@.sheet_fits(i as int));
            }
            if sheet.player_id == player_id && window.takes(sheet) {
                scores.push(sheet.score);
            }
            i += 1;
        }
        proof {
            self@.score_sheets.lemma_take_len();
        }
        scores
    }

    /// All scores of the player.
    pub fn get_user_scores(&self, user_id: i64) -> (r: Vec<i64>)
        requires
            self.wf(),
        ensures
            r@ == self@.scores(user_id, WindowView::All),
    {
        self.get_scores(user_id, &Window::All)
    }

    /// The scores of the player from the day `from_day` on.
    pub fn get_player_scores_from_day(&self, from_day: i64, player_id: i64) -> (r: Vec<i64>)
        requires
            self.wf(),
        ensures
            r@ == self@.scores(player_id, WindowView::FromDay(from_day)),
    {
        self.get_scores(player_id, &Window::FromDay(from_day))
    }

    /// The scores of the player in the cup `cup_number`.
    pub fn get_player_scores_for_cup_number(&self, player_id: i64, cup_number: &str) -> (r: Vec<
        i64,
    >)
        requires
            self.wf(),
        ensures
            r@ == self@.scores(player_id, WindowView::Cup(cup_number@)),
    {
        self.get_scores(player_id, &Window::Cup(String::from_str(cup_number)))
    }

    /// The number of score sheets of the player.
    pub fn get_user_played_games(&self, user_id: i64) -> (r: i32)
        requires
            self.wf(),
        ensures
            r == self@.sheets_of(user_id, WindowView::All).len(),
    {
        let ghost wanted = |sheet: ScoresheetView|
            sheet.player_id == user_id && WindowView::All.takes(sheet);
        let mut count: i32 = 0;
        let mut i: usize = 0;
        proof {
            reveal(Seq::filter);
        }
        while i < self.score_sheets.len()
            invariant
                self.wf(),
                i <= self.score_sheets.len(),
                0 <= count <= i,
                wanted == |sheet: ScoresheetView|
                    sheet.player_id == user_id && WindowView::All.takes(sheet),
                count == self@.score_sheets.take(i as int).filter(wanted).len(),
            decreases self.score_sheets.len() - i,
        {
            proof {
                self@.score_sheets.lemma_take_succ_push(i as int);
                self@.score_sheets.take(i as int).lemma_filter_push(
                    self@.score_sheets[i as int],
                    wanted,
                );
            }
            if self.score_sheets[i].player_id == user_id {
                count += 1;
            }
            i += 1;
        }
        proof {
            self@.score_sheets.lemma_take_len();
        }
        count
    }

    /// The day that a query for medals looks at and the score that earns the
    /// placement there.
    fn medal_score(&self, day: Option<i64>, placement: Placement) -> (r: Option<(i64, i64)>)
        requires
            self.wf(),
        ensures
            r == self@.medal_score(day, placement),
    {
        let day = match day {
            Some(day) => day,
            None => match self.get_daily_day() {
                Some(day) => day,
                None => {
                    return None;
                },
            },
        };
        let high_scores = match self.get_daily_high_scores(day) {
            Some(high_scores) => high_scores,
            None => {
                return None;
            },
        };
        let score = match placement {
            Placement::Gold => high_scores[0],
            Placement::Silver => high_scores[1],
            Placement::Bronze => high_scores[2],
            Placement::Loser => None,
        };
        match score {
            Some(score) => Some((day, score)),
            None => None,
        }
    }

    /// The score sheets that hold the placement of the day, or of the latest
    /// day if none is given. There is no answer while the day's slot for the
    /// placement is empty: who holds the placement is then not decided.
    pub fn medalists(&self, day: Option<i64>, placement: Placement) -> (r: Option<Vec<Scoresheet>>)
        requires
            self.wf(),
        ensures
            is_medalists(self@, day, placement, r),
    {
        let (day, score) = match self.medal_score(day, placement) {
            Some(found) => found,
            None => {
                return None;
            },
        };
        let ghost wanted = |sheet: ScoresheetView| sheet.day == day && sheet.score == score;
        let mut sheets: Vec<Scoresheet> = Vec::new();
        let mut i: usize = 0;
        proof {
            reveal(Seq::filter);
        }
        while i < self.score_sheets.len()
            invariant
                i <= self.score_sheets.len(),
                wanted == |sheet: ScoresheetView| sheet.day == day && sheet.score == score,
                sheet_views(sheets@) == self@.score_sheets.take(i as int).filter(wanted),
            decreases self.score_sheets.len() - i,
        {
            let sheet = &self.score_sheets[i];
            proof {
                self@.score_sheets.lemma_take_succ_push(i as int);
                self@.score_sheets.take(i as int).lemma_filter_push(
                    self@.score_sheets[i as int],
                    wanted,
                );
            }
            if sheet.day == day && sheet.score == score {
                sheets.push(sheet.clone());
            }
            i += 1;
        }
        proof {
            self@.score_sheets.lemma_take_len();
        }
        Some(sheets)
    }

    /// The score sheets that hold gold on the day, or on the latest day if
    /// none is given.
    pub fn get_gold_medalist(&self, day: Option<i64>) -> (r: Option<Vec<Scoresheet>>)
        requires
            self.wf(),
        ensures
            is_medalists(self@, day, Placement::Gold, r),
    {
        self.medalists(day, Placement::Gold)
    }

    /// The score sheets that hold silver on the day, or on the latest day if
    /// none is given.
    pub fn get_silver_medalist(&self, day: Option<i64>) -> (r: Option<Vec<Scoresheet>>)
        requires
            self.wf(),
        ensures
            is_medalists(self@, day, Placement::Silver, r),
    {
        self.medalists(day, Placement::Silver)
    }

    /// The score sheets that hold bronze on the day, or on the latest day if
    /// none is given.
    pub fn get_bronze_medalist(&self, day: Option<i64>) -> (r: Option<Vec<Scoresheet>>)
        requires
            self.wf(),
        ensures
            is_medalists(self@, day, Placement::Bronze, r),
    {
        self.medalists(day, Placement::Bronze)
    }

    /// The number of days on which the player holds the placement.
    pub fn get_user_medals(&self, user_id: i64, placement: Placement) -> (r: i32)
        requires
            self.wf(),
        ensures
            r == self@.medals(user_id, placement),
    {
        let ghost wanted = |sheet: ScoresheetView|
            sheet.player_id == user_id && self@.earns(sheet, placement);
        let mut count: i32 = 0;
        let mut i: usize = 0;
        proof {
            reveal(Seq::filter);
        }
        while i < self.score_sheets.len()
            invariant
                self.wf(),
                i <= self.score_sheets.len(),
                0 <= count <= i,
                wanted == |sheet: ScoresheetView|
                    sheet.player_id == user_id && self@.earns(sheet, placement),
                count == self@.score_sheets.take(i as int).filter(wanted).len(),
            decreases self.score_sheets.len() - i,
        {
            let sheet = &self.score_sheets[i];
            proof {
                self@.score_sheets.lemma_take_succ_push(i as int);
                self@.score_sheets.take(i as int).lemma_filter_push(
                    self@.score_sheets[i as int],
                    wanted,
                );
            }
            if sheet.player_id == user_id {
                let earned = self.medal_score(Some(sheet.day), placement);
                if earned == Some((sheet.day, sheet.score)) {
                    count += 1;
                }
            }
            i += 1;
        }
        proof {
            self@.score_sheets.lemma_take_len();
        }
        count
    }

    /// The number of days on which the player holds gold.
    pub fn get_user_gold_medals(&self, user_id: i64) -> (r: i32)
        requires
            self.wf(),
        ensures
            r == self@.medals(user_id, Placement::Gold),
    {
        self.get_user_medals(user_id, Placement::Gold)
    }

    /// The number of days on which the player holds silver.
    pub fn get_user_silver_medals(&self, user_id: i64) -> (r: i32)
        requires
            self.wf(),
        ensures
            r == self@.medals(user_id, Placement::Silver),
    {
        self.get_user_medals(user_id, Placement::Silver)
    }

    /// The number of days on which the player holds bronze.
    pub fn get_user_bronze_medals(&self, user_id: i64) -> (r: i32)
        requires
            self.wf(),
        ensures
            r == self@.medals(user_id, Placement::Bronze),
    {
        self.get_user_medals(user_id, Placement::Bronze)
    }
}

} // verus!
