//! What the bot's commands ask of the store: the ranking, the standing of
//! the day and the statistics of a player. The wording of the answers is in
//! [`crate::response`].

use crate::cup::is_cup_key;
use crate::database::{is_medalists, Database, DatabaseView, Window, WindowView};
use crate::leaderboard::{is_leader_board, weight, FIB};
use crate::placement::Placement;
use crate::player::Player;
use crate::scoresheet::{sheet_views, Scoresheet};
use vstd::prelude::*;

verus! {

/// One line of the standing of a day.
pub struct Standing {
    pub placement: Placement,
    /// The score sheets that hold the placement.
    pub score_sheets: Vec<Scoresheet>,
    /// The number of guesses that earns the placement.
    pub score: i64,
    /// The points that the number of guesses is worth.
    pub points: u32,
}

/// The line is the one of the placement on the latest day.
pub open spec fn is_standing_of(db: DatabaseView, placement: Placement, line: Standing) -> bool {
    &&& line.placement == placement
    &&& db.medalists(None, placement) == Some(sheet_views(line.score_sheets@))
    &&& db.medal_score(None, placement).unwrap().1 == line.score
    &&& line.points == weight(line.score)
}

/// The number of placements, counted from gold, that are decided on the
/// latest day.
pub open spec fn decided(db: DatabaseView) -> nat {
    if db.medalists(None, Placement::Gold) is None {
        0
    } else if db.medalists(None, Placement::Silver) is None {
        1
    } else if db.medalists(None, Placement::Bronze) is None {
        2
    } else {
        3
    }
}

/// The placement of the `i`-th line of a standing.
pub open spec fn placement_at(i: int) -> Placement {
    if i == 0 {
        Placement::Gold
    } else if i == 1 {
        Placement::Silver
    } else {
        Placement::Bronze
    }
}

/// Who holds gold, silver and bronze on the latest day.
pub fn fetch_daily_result(database: &Database) -> (r: [(Placement, Option<Vec<Scoresheet>>); 3])
    requires
        database.wf(),
    ensures
        r[0].0 == Placement::Gold,
        r[1].0 == Placement::Silver,
        r[2].0 == Placement::Bronze,
        forall|i: int| 0 <= i < 3 ==> is_medalists(database@, None, (#[trigger] r[i]).0, r[i].1),
{
    [
        (Placement::Gold, database.get_gold_medalist(None)),
        (Placement::Silver, database.get_silver_medalist(None)),
        (Placement::Bronze, database.get_bronze_medalist(None)),
    ]
}

/// The standing of the latest day: a line for gold, one for silver and one
/// for bronze, up to the first placement that is not decided.
pub fn daily_standing(database: &Database) -> (lines: Vec<Standing>)
    requires
        database.wf(),
    ensures
        lines.len() == decided(database@),
        forall|i: int|
            0 <= i < lines.len() ==> is_standing_of(database@, placement_at(i), #[trigger] lines[i]),
{
    let mut lines: Vec<Standing> = Vec::new();
    let gold = match database.get_gold_medalist(None) {
        Some(score_sheets) => score_sheets,
        None => {
            return lines;
        },
    };
    lines.push(line_of(database, Placement::Gold, gold));
    let silver = match database.get_silver_medalist(None) {
        Some(score_sheets) => score_sheets,
        None => {
            return lines;
        },
    };
    lines.push(line_of(database, Placement::Silver, silver));
    let bronze = match database.get_bronze_medalist(None) {
        Some(score_sheets) => score_sheets,
        None => {
            return lines;
        },
    };
    lines.push(line_of(database, Placement::Bronze, bronze));
    lines
}

/// The line of a placement that is decided.
fn line_of(database: &Database, placement: Placement, score_sheets: Vec<Scoresheet>) -> (line:
    Standing)
    requires
        database.wf(),
        database@.medalists(None, placement) == Some(sheet_views(score_sheets@)),
    ensures
        is_standing_of(database@, placement, line),
        line.score_sheets == score_sheets,
{
    let day = database.get_daily_day().unwrap();
    let high_scores = database.get_daily_high_scores(day).unwrap();
    let score = match placement {
        Placement::Gold => high_scores[0],
        Placement::Silver => high_scores[1],
        Placement::Bronze => high_scores[2],
        Placement::Loser => None,
    }.unwrap();
    Standing { placement, score_sheets, score, points: FIB[score as usize] }
}

/// The ranking that is asked for: over all score sheets if `totala`, else
/// over the cup that is played now.
pub fn score_board(database: &Database, totala: bool) -> (board: Vec<(Player, u32)>)
    requires
        database.wf(),
    ensures
        totala ==> is_leader_board(database@, WindowView::All, board@),
        !totala ==> exists|cup_number: Seq<char>| #[trigger]
            is_cup_key(cup_number) && is_leader_board(
                database@,
                WindowView::Cup(cup_number),
                board@,
            ),
{
    if totala {
        database.total_cup_score()
    } else {
        database.current_cup_score()
    }
}

/// What a player has achieved.
pub struct Stats {
    /// The number of days that the player took part in.
    pub played_games: i32,
    pub gold_medals: i32,
    pub silver_medals: i32,
    pub bronze_medals: i32,
    /// How often the player needed each number of guesses: at `0` the
    /// failed attempts, at `1` to `6` the days solved with so many guesses.
    pub guesses: [i32; 7],
}

/// The number of times that `guesses` stands among the scores.
pub open spec fn times(scores: Seq<i64>, guesses: int) -> nat {
    scores.filter(|score: i64| score == guesses).len()
}

/// Counts how often each number of guesses stands among the scores.
pub fn guess_distribution(scores: &Vec<i64>) -> (count: [i32; 7])
    requires
        scores.len() <= i32::MAX,
        forall|i: int| 0 <= i < scores.len() ==> 0 <= #[trigger] scores[i] <= 6,
    ensures
        forall|guesses: int| 0 <= guesses <= 6 ==> #[trigger] count[guesses] == times(scores@, guesses),
{
    let mut count: [i32; 7] = [0, 0, 0, 0, 0, 0, 0];
    let mut i: usize = 0;
    proof {
        reveal(Seq::filter);
    }
    while i < scores.len()
        invariant
            i <= scores.len() <= i32::MAX,
            forall|k: int| 0 <= k < scores.len() ==> 0 <= #[trigger] scores[k] <= 6,
            forall|guesses: int|
                0 <= guesses <= 6 ==> #[trigger] count[guesses] == times(
                    scores@.take(i as int),
                    guesses,
                ) && 0 <= count[guesses] <= i,
        decreases scores.len() - i,
    {
        let score = scores[i];
        proof {
            scores@.lemma_take_succ_push(i as int);
            assert forall|guesses: int| 0 <= guesses <= 6 implies #[trigger] times(
                scores@.take(i + 1),
                guesses,
            ) == times(scores@.take(i as int), guesses) + (if guesses == score {
                1int
            } else {
                0int
            }) by {
                scores@.take(i as int).lemma_filter_push(score, |score: i64| score == guesses);
            }
        }
        count[score as usize] = count[score as usize] + 1;
        i += 1;
    }
    proof {
        scores@.lemma_take_len();
    }
    count
}

/// The statistics of the player.
pub fn stats(player: &Player, database: &Database) -> (r: Stats)
    requires
        database.wf(),
        player.id <= i64::MAX,
    ensures
        r.played_games == database@.sheets_of(player.id as i64, WindowView::All).len(),
        r.gold_medals == database@.medals(player.id as i64, Placement::Gold),
        r.silver_medals == database@.medals(player.id as i64, Placement::Silver),
        r.bronze_medals == database@.medals(player.id as i64, Placement::Bronze),
        forall|guesses: int|
            0 <= guesses <= 6 ==> #[trigger] r.guesses[guesses] == times(
                database@.scores(player.id as i64, WindowView::All),
                guesses,
            ),
        forall|guesses: int| 0 <= guesses <= 6 ==> 0 <= #[trigger] r.guesses[guesses] <= r.played_games,
{
    let id = player.id as i64;
    let scores = database.get_scores(id, &Window::All);
    proof {
        assert forall|guesses: int| 0 <= guesses <= 6 implies #[trigger] times(scores@, guesses)
            <= scores@.len() by {
            scores@.lemma_filter_len(|score: i64| score == guesses);
        }
    }
    Stats {
        played_games: database.get_user_played_games(id),
        gold_medals: database.get_user_gold_medals(id),
        silver_medals: database.get_user_silver_medals(id),
        bronze_medals: database.get_user_bronze_medals(id),
        guesses: guess_distribution(&scores),
    }
}

} // verus!
