//! The weighted ranking of the players over a window of score sheets.
//!
//! Every score sheet is worth points by its number of guesses: the fewer
//! guesses, the more points, and a failed attempt is worth nothing. A
//! player's points are the sum over the player's score sheets in the window.
//! Players without points are not ranked. The ranking goes by points, most
//! first; players with the same points are ranked by id, lowest first.

use crate::cup::{current_cup_number, is_cup_key};
use crate::database::{Database, DatabaseView, Window, WindowView, MAX_SCORE_SHEETS};
use crate::player::Player;
use vstd::prelude::*;

verus! {

/// The points for each number of guesses. Failure (`0`) gives no points.
pub const FIB: [u32; 7] = [0, 13, 8, 5, 3, 2, 1];

/// The points that a score is worth.
pub open spec fn weight(score: i64) -> nat {
    if 0 <= score <= 6 {
        FIB[score as int] as nat
    } else {
        0
    }
}

/// The points that the scores are worth together.
pub open spec fn points_of(scores: Seq<i64>) -> nat
    decreases scores.len(),
{
    if scores.len() == 0 {
        0
    } else {
        points_of(scores.drop_last()) + weight(scores.last())
    }
}

/// The points of the player in the window.
pub open spec fn points(db: DatabaseView, player_id: i64, window: WindowView) -> nat {
    points_of(db.scores(player_id, window))
}

/// `a` stands before `b` in a ranking: it has more points, or the same
/// points and the lower id.
pub open spec fn ranks_before(a: (Player, u32), b: (Player, u32)) -> bool {
    a.1 > b.1 || (a.1 == b.1 && a.0.id < b.0.id)
}

/// Every entry stands before those behind it. No player is then listed
/// twice.
pub open spec fn is_ranking(board: Seq<(Player, u32)>) -> bool {
    forall|i: int, j: int| 0 <= i < j < board.len() ==> ranks_before(board[i], board[j])
}

/// The entry is that of one of the first `n` players of the store, with the
/// player's points in the window, and the points are not zero.
pub open spec fn ranked_among(
    db: DatabaseView,
    window: WindowView,
    n: int,
    entry: (Player, u32),
) -> bool {
    exists|k: int|
        0 <= k < n && k < db.players.len() && entry.0.id == #[trigger] db.players[k] && entry.1
            == points(db, db.players[k], window) && entry.1 > 0
}

/// `board` is the ranking of the store's players over the window: it lists
/// the players with points, each with its points, and is ordered by
/// [`ranks_before`].
pub open spec fn is_leader_board(
    db: DatabaseView,
    window: WindowView,
    board: Seq<(Player, u32)>,
) -> bool {
    &&& is_ranking(board)
    &&& forall|i: int|
        0 <= i < board.len() ==> ranked_among(db, window, db.players.len() as int, #[trigger] board[i])
    &&& forall|k: int|
        0 <= k < db.players.len() && points(db, #[trigger] db.players[k], window) > 0 ==> exists|
            i: int,
        |
            0 <= i < board.len() && (#[trigger] board[i]).0.id == db.players[k]
}

/// `player` leads the window: it has points, and no player of the store
/// would stand before it in the ranking.
pub open spec fn is_leader(db: DatabaseView, window: WindowView, player: Player) -> bool {
    &&& db.has_player(player.id as i64)
    &&& player.id <= i64::MAX
    &&& points(db, player.id as i64, window) > 0
    &&& forall|k: int|
        0 <= k < db.players.len() ==> {
            let other = #[trigger] db.players[k];
            points(db, other, window) < points(db, player.id as i64, window) || (points(
                db,
                other,
                window,
            ) == points(db, player.id as i64, window) && player.id <= other)
        }
}

/// Nobody has points in the window.
pub open spec fn nobody_scored(db: DatabaseView, window: WindowView) -> bool {
    forall|k: int| 0 <= k < db.players.len() ==> points(db, #[trigger] db.players[k], window) == 0
}

/// No score is worth more than 13 points.
pub proof fn lemma_points_bound(scores: Seq<i64>)
    ensures
        points_of(scores) <= 13 * scores.len(),
    decreases scores.len(),
{
    if scores.len() > 0 {
        lemma_points_bound(scores.drop_last());
    }
}

/// Adds up the points of the scores.
pub fn weighted_score(scores: &Vec<i64>) -> (total: u32)
    requires
        scores.len() <= MAX_SCORE_SHEETS,
        forall|i: int| 0 <= i < scores.len() ==> 0 <= #[trigger] scores[i] <= 6,
    ensures
        total == points_of(scores@),
{
    let mut total: u32 = 0;
    let mut i: usize = 0;
    while i < scores.len()
        invariant
            i <= scores.len() <= MAX_SCORE_SHEETS,
            forall|k: int| 0 <= k < scores.len() ==> 0 <= #[trigger] scores[k] <= 6,
            total == points_of(scores@.take(i as int)),
            total <= 13 * i,
        decreases scores.len() - i,
    {
        proof {
            assert(scores@.take(i + 1).drop_last() =~= scores@.take(i as int));
            lemma_points_bound(scores@.take(i + 1));
        }
        total = total + FIB[scores[i] as usize];
        i += 1;
    }
    proof {
        scores@.lemma_take_len();
    }
    total
}

/// Puts the entry in its place in the ranking.
fn insert_ranked(board: &mut Vec<(Player, u32)>, entry: (Player, u32)) -> (pos: usize)
    requires
        is_ranking(old(board)@),
        forall|i: int| 0 <= i < old(board).len() ==> (#[trigger] old(board)[i]).0.id != entry.0.id,
    ensures
        is_ranking(final(board)@),
        pos <= old(board).len(),
        final(board)@ == old(board)@.insert(pos as int, entry),
{
    let mut pos: usize = 0;
    while pos < board.len() && (board[pos].1 > entry.1 || (board[pos].1 == entry.1
        && board[pos].0.id < entry.0.id))
        invariant
            pos <= board.len(),
            board@ == old(board)@,
            forall|k: int| 0 <= k < pos ==> ranks_before(#[trigger] board[k], entry),
        decreases board.len() - pos,
    {
        pos += 1;
    }
    let ghost before = board@;
    board.insert(pos, entry);
    proof {
        before.insert_ensures(pos as int, entry);
        assert forall|i: int, j: int| 0 <= i < j < board.len() implies ranks_before(
            board[i],
            board[j],
        ) by {
            if j > pos + 1 {
                assert(ranks_before(before[pos as int], before[j - 1]));
            }
        }
    }
    pos
}

impl Database {
    /// Ranks the players by their points in the window.
    pub fn calculate_leader_board(&self, window: &Window) -> (board: Vec<(Player, u32)>)
        requires
            self.wf(),
        ensures
            is_leader_board(self@, window@, board@),
    {
        let mut board: Vec<(Player, u32)> = Vec::new();
        let players = self.get_players();
        let mut n: usize = 0;
        while n < players.len()
            invariant
                self.wf(),
                players@ == self@.players,
                n <= players.len(),
                is_ranking(board@),
                forall|i: int|
                    0 <= i < board.len() ==> ranked_among(self@, window@, n as int, #[trigger] board[i]),
                forall|k: int|
                    0 <= k < n && points(self@, #[trigger] self@.players[k], window@) > 0
                        ==> exists|i: int|
                        0 <= i < board.len() && (#[trigger] board[i]).0.id == self@.players[k],
            decreases players.len() - n,
        {
            let player_id = players[n];
            let scores = self.get_scores(player_id, window);
            proof {
                lemma_points_bound(scores@);
            }
            let score = weighted_score(&scores);
            if score != 0 {
                let entry = (Player::from(player_id), score);
                let ghost before = board@;
                let pos = insert_ranked(&mut board, entry);
                proof {
                    before.insert_ensures(pos as int, entry);
                    assert forall|k: int|
                        0 <= k < n + 1 && points(self@, #[trigger] self@.players[k], window@)
                            > 0 implies exists|i: int|
                        0 <= i < board.len() && (#[trigger] board[i]).0.id == self@.players[k] by {
                        if k < n {
                            let i = choose|i: int|
                                0 <= i < before.len() && (#[trigger] before[i]).0.id
                                    == self@.players[k];
                            if i < pos {
                                assert(board[i] == before[i]);
                            } else {
                                assert(board[i + 1] == before[i]);
                            }
                        }
                    }
                }
            }
            n += 1;
        }
        board
    }

    /// The ranking over all score sheets.
    pub fn total_cup_score(&self) -> (board: Vec<(Player, u32)>)
        requires
            self.wf(),
        ensures
            is_leader_board(self@, WindowView::All, board@),
    {
        self.calculate_leader_board(&Window::All)
    }

    /// The ranking of the cup `cup_number`.
    pub fn cup_score(&self, cup_number: &str) -> (board: Vec<(Player, u32)>)
        requires
            self.wf(),
        ensures
            is_leader_board(self@, WindowView::Cup(cup_number@), board@),
    {
        self.calculate_leader_board(&Window::Cup(String::from_str(cup_number)))
    }

    /// The ranking of the cup that is played now.
    pub fn current_cup_score(&self) -> (board: Vec<(Player, u32)>)
        requires
            self.wf(),
        ensures
            exists|cup_number: Seq<char>| #[trigger]
                is_cup_key(cup_number) && is_leader_board(
                    self@,
                    WindowView::Cup(cup_number),
                    board@,
                ),
    {
        let cup_number = current_cup_number();
        let board = self.cup_score(cup_number.as_str());
        board
    }

    /// The scores of the player in the cup that is played now.
    pub fn get_player_scores_for_current_cup(&self, player_id: i64) -> (r: Vec<i64>)
        requires
            self.wf(),
        ensures
            exists|cup_number: Seq<char>| #[trigger]
                is_cup_key(cup_number) && r@ == self@.scores(
                    player_id,
                    WindowView::Cup(cup_number),
                ),
    {
        let cup_number = current_cup_number();
        let r = self.get_player_scores_for_cup_number(player_id, cup_number.as_str());
        r
    }

    /// The player that leads the cup that is played now, if anybody has
    /// points in it.
    pub fn current_cup_leader(&self) -> (leader: Option<Player>)
        requires
            self.wf(),
        ensures
            exists|cup_number: Seq<char>| #[trigger]
                is_cup_key(cup_number) && (leader is None <==> nobody_scored(
                    self@,
                    WindowView::Cup(cup_number),
                )) && (leader matches Some(player) ==> is_leader(
                    self@,
                    WindowView::Cup(cup_number),
                    player,
                )),
    {
        let current_cup = current_cup_number();
        let leader = self.cup_leader(current_cup.as_str());
        leader
    }

    /// The player that leads the cup `cup_number`, if anybody has points in
    /// it.
    pub fn cup_leader(&self, cup_number: &str) -> (leader: Option<Player>)
        requires
            self.wf(),
        ensures
            leader is None <==> nobody_scored(self@, WindowView::Cup(cup_number@)),
            leader matches Some(player) ==> is_leader(self@, WindowView::Cup(cup_number@), player),
    {
        let board = self.cup_score(cup_number);
        proof {
            lemma_first_leads(self@, WindowView::Cup(cup_number@), board@);
        }
        if board.len() == 0 {
            None
        } else {
            Some(board[0].0)
        }
    }
}

/// The first entry of a ranking is the leader, and a ranking is empty only
/// if nobody has points.
pub proof fn lemma_first_leads(db: DatabaseView, window: WindowView, board: Seq<(Player, u32)>)
    requires
        db.wf(),
        is_leader_board(db, window, board),
    ensures
        board.len() == 0 <==> nobody_scored(db, window),
        board.len() > 0 ==> is_leader(db, window, board[0].0),
{
    if board.len() > 0 {
        let first = board[0];
        assert(ranked_among(db, window, db.players.len() as int, first));
        assert forall|k: int| 0 <= k < db.players.len() implies {
            let other = #[trigger] db.players[k];
            points(db, other, window) < points(db, first.0.id as i64, window) || (points(
                db,
                other,
                window,
            ) == points(db, first.0.id as i64, window) && first.0.id <= other)
        } by {
            let other = db.players[k];
            if points(db, other, window) > 0 {
                let i = choose|i: int| 0 <= i < board.len() && (#[trigger] board[i]).0.id == other;
                assert(ranked_among(db, window, db.players.len() as int, board[i]));
                if i > 0 {
                    assert(ranks_before(first, board[i]));
                }
            }
        }
    } else {
        assert forall|k: int| 0 <= k < db.players.len() implies points(
            db,
            #[trigger] db.players[k],
            window,
        ) == 0 by {
            if points(db, db.players[k], window) > 0 {
                assert(exists|i: int|
                    0 <= i < board.len() && (#[trigger] board[i]).0.id == db.players[k]);
            }
        }
    }
}

/// In a ranking, whoever has more points stands further up.
pub proof fn lemma_more_points_rank_higher(board: Seq<(Player, u32)>, i: int, j: int)
    requires
        is_ranking(board),
        0 <= i < board.len(),
        0 <= j < board.len(),
        board[i].1 > board[j].1,
    ensures
        i < j,
{
    if j < i {
        assert(ranks_before(board[j], board[i]));
    }
}

/// An entry of one ranking of a window stands in every ranking of it.
proof fn lemma_listed_in_both(
    db: DatabaseView,
    window: WindowView,
    a: Seq<(Player, u32)>,
    b: Seq<(Player, u32)>,
    i: int,
) -> (k: int)
    requires
        db.wf(),
        is_leader_board(db, window, a),
        is_leader_board(db, window, b),
        0 <= i < a.len(),
    ensures
        0 <= k < b.len(),
        b[k] == a[i],
{
    assert(ranked_among(db, window, db.players.len() as int, a[i]));
    let p = choose|p: int|
        0 <= p < db.players.len() && a[i].0.id == #[trigger] db.players[p] && a[i].1 == points(
            db,
            db.players[p],
            window,
        ) && a[i].1 > 0;
    let k = choose|k: int| 0 <= k < b.len() && (#[trigger] b[k]).0.id == db.players[p];
    assert(ranked_among(db, window, db.players.len() as int, b[k]));
    k
}

/// Two rankings of a window agree on their first `n` entries.
proof fn lemma_same_entries(
    db: DatabaseView,
    window: WindowView,
    a: Seq<(Player, u32)>,
    b: Seq<(Player, u32)>,
    n: int,
)
    requires
        db.wf(),
        is_leader_board(db, window, a),
        is_leader_board(db, window, b),
        0 <= n <= a.len(),
    ensures
        n <= b.len(),
        forall|i: int| 0 <= i < n ==> a[i] == b[i],
    decreases n,
{
    if n > 0 {
        lemma_same_entries(db, window, a, b, n - 1);
        let i = n - 1;
        let k = lemma_listed_in_both(db, window, a, b, i);
        if k < i {
            assert(ranks_before(a[k], a[i]));
        } else if k > i {
            let m = lemma_listed_in_both(db, window, b, a, i);
            assert(ranks_before(b[i], b[k]));
            if m < i {
                assert(ranks_before(b[m], b[i]));
            } else if m > i {
                assert(ranks_before(a[i], a[m]));
            }
        }
    }
}

/// A window has one ranking only: the order is settled down to the last
/// entry.
pub proof fn lemma_leader_board_is_unique(
    db: DatabaseView,
    window: WindowView,
    a: Seq<(Player, u32)>,
    b: Seq<(Player, u32)>,
)
    requires
        db.wf(),
        is_leader_board(db, window, a),
        is_leader_board(db, window, b),
    ensures
        a == b,
{
    lemma_same_entries(db, window, a, b, a.len() as int);
    lemma_same_entries(db, window, b, a, b.len() as int);
}

} // verus!
