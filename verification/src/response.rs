//! The texts that the bot answers with.
//!
//! Whoever shows an answer looks up the names of the players first: the
//! texts are made of names, not of ids.

use crate::command::{Standing, Stats};
use crate::cup::{current_cup_number_cute_format, is_cute_cup_key};
use crate::placement::Placement;
use crate::text::{
    append_bold_line, append_decimal, append_joined, append_line, append_repeated, bold_line,
    decimal, joined, line, repeated, texts_of,
};
use vstd::prelude::*;

verus! {

/// The heading of the ranking of all score sheets.
pub open spec fn total_heading() -> Seq<char> {
    "Ställning i totalcupen:"@
}

/// The heading of the ranking of the cup that is shown as `cup_number`.
pub open spec fn cup_heading(cup_number: Seq<char>) -> Seq<char> {
    "Ställning i månadscupen "@ + cup_number + ":"@
}

/// The heading of a ranking: of all score sheets if `totala`, else of the
/// cup that is played now.
pub fn score_heading(totala: bool) -> (heading: String)
    ensures
        totala ==> heading@ == total_heading(),
        !totala ==> exists|cup_number: Seq<char>| #[trigger]
            is_cute_cup_key(cup_number) && heading@ == cup_heading(cup_number),
{
    if totala {
        String::from_str("Ställning i totalcupen:")
    } else {
        let cup_number = current_cup_number_cute_format();
        let mut heading = String::from_str("Ställning i månadscupen ");
        heading.append(cup_number.as_str());
        heading.append(":");
        assert(is_cute_cup_key(cup_number@));
        heading
    }
}

/// One row of a ranking: the points, then the name.
pub open spec fn score_row(user: Seq<char>, result: u32) -> Seq<char> {
    line("\t\t"@ + decimal(result as int) + ": "@ + user)
}

/// The rows of a ranking, one below the other.
pub open spec fn score_rows(rows: Seq<(String, u32)>) -> Seq<char>
    decreases rows.len(),
{
    if rows.len() == 0 {
        Seq::empty()
    } else {
        score_rows(rows.drop_last()) + score_row(rows.last().0@, rows.last().1)
    }
}

/// The answer to the question for the ranking: the heading in bold, then a
/// row for each player, as ranked.
pub fn score_response(heading: &str, rows: &Vec<(String, u32)>) -> (response: String)
    ensures
        response@ == bold_line(heading@) + score_rows(rows@),
{
    let mut response = String::new();
    append_bold_line(&mut response, heading);
    let mut i: usize = 0;
    while i < rows.len()
        invariant
            i <= rows.len(),
            response@ == bold_line(heading@) + score_rows(rows@.take(i as int)),
        decreases rows.len() - i,
    {
        proof {
            assert(rows@.take(i + 1).drop_last() =~= rows@.take(i as int));
        }
        let mut row = String::from_str("\t\t");
        append_decimal(&mut row, rows[i].1 as i64);
        row.append(": ");
        row.append(rows[i].0.as_str());
        append_line(&mut response, row.as_str());
        i += 1;
    }
    proof {
        rows@.lemma_take_len();
    }
    response
}

/// One line of the standing of a day, with the names of those who hold the
/// placement.
pub struct StandingLine {
    pub placement: Placement,
    pub users: Vec<String>,
    /// The number of guesses that earns the placement.
    pub score: i64,
    /// The points that the number of guesses is worth.
    pub points: u32,
}

/// A line of the standing of a day: the marker of the placement, who holds
/// it, with how many guesses, and for how many points.
pub open spec fn standing_line(entry: StandingLine) -> Seq<char> {
    line(
        entry.placement.symbol() + " - "@ + joined(texts_of(entry.users@), ", "@) + " - "@
            + decimal(entry.score as int) + " försök ("@ + decimal(entry.points as int) + "p)"@,
    )
}

/// The lines of the standing of a day, one below the other.
pub open spec fn standing_lines(lines: Seq<StandingLine>) -> Seq<char>
    decreases lines.len(),
{
    if lines.len() == 0 {
        Seq::empty()
    } else {
        standing_lines(lines.drop_last()) + standing_line(lines.last())
    }
}

/// The heading of the standing of a day.
pub open spec fn daily_heading() -> Seq<char> {
    "Dagens placering:"@
}

/// The line of the standing for those who are called `users`.
pub fn named(standing: &Standing, users: Vec<String>) -> (entry: StandingLine)
    ensures
        entry.placement == standing.placement,
        entry.users == users,
        entry.score == standing.score,
        entry.points == standing.points,
{
    StandingLine {
        placement: standing.placement,
        users,
        score: standing.score,
        points: standing.points,
    }
}

/// The answer to the question for the standing of the day: the heading in
/// bold, then a line for each placement.
pub fn daily_response(lines: &Vec<StandingLine>) -> (response: String)
    ensures
        response@ == bold_line(daily_heading()) + standing_lines(lines@),
{
    let mut response = String::new();
    append_bold_line(&mut response, "Dagens placering:");
    let mut i: usize = 0;
    while i < lines.len()
        invariant
            i <= lines.len(),
            response@ == bold_line(daily_heading()) + standing_lines(lines@.take(i as int)),
        decreases lines.len() - i,
    {
        proof {
            assert(lines@.take(i + 1).drop_last() =~= lines@.take(i as int));
        }
        let entry = &lines[i];
        let mut text = entry.placement.to_string();
        text.append(" - ");
        append_joined(&mut text, &entry.users, ", ");
        text.append(" - ");
        append_decimal(&mut text, entry.score);
        text.append(" försök (");
        append_decimal(&mut text, entry.points as i64);
        text.append("p)");
        append_line(&mut response, text.as_str());
        i += 1;
    }
    proof {
        lines@.lemma_take_len();
    }
    response
}

/// The length of the bar for `count` out of `total`: as many fiftieths of
/// the whole as the share is, rounded down. There is no bar where there is
/// no whole.
pub open spec fn bar_width(count: int, total: int) -> nat {
    if total <= 0 || count <= 0 {
        0
    } else {
        (50 * count / total) as nat
    }
}

/// The length of the bar for `count` out of `total`.
pub fn bar_length(count: i32, total: i32) -> (length: usize)
    requires
        count <= total,
    ensures
        length == bar_width(count as int, total as int),
        length <= 50,
{
    if total <= 0 || count <= 0 {
        0
    } else {
        assert(50 * count / (total as int) <= 50) by (nonlinear_arith)
            requires
                0 < count <= total,
        ;
        assert(0 <= 50 * count / (total as int)) by (nonlinear_arith)
            requires
                0 < count <= total,
        ;
        (50 * (count as i64) / (total as i64)) as usize
    }
}

/// The line of the statistics that tells how many medals of a placement
/// the player has.
pub open spec fn medal_line(placement: Placement, medals: int) -> Seq<char> {
    line(placement.symbol() + " medaljer: **"@ + decimal(medals) + "**"@)
}

/// The line of the statistics for a number of guesses: the number, a bar
/// as long as its share of the player's games, and how often it came.
pub open spec fn guess_line(guesses: int, count: int, total: int) -> Seq<char> {
    line(
        decimal(guesses) + "\t|\t"@ + repeated("█"@, bar_width(count, total)) + "|\t"@ + decimal(
            count,
        ),
    )
}

/// The lines of the statistics for the numbers of guesses below `n`.
pub open spec fn guess_lines(stats: Stats, n: int) -> Seq<char>
    decreases n,
{
    if n <= 0 {
        Seq::empty()
    } else {
        guess_lines(stats, n - 1) + guess_line(
            n - 1,
            stats.guesses[n - 1] as int,
            stats.played_games as int,
        )
    }
}

/// What the answer to the question for a player's statistics says.
pub open spec fn stats_text(stats: Stats) -> Seq<char> {
    line("Antal spelade spel: **"@ + decimal(stats.played_games as int) + "**"@) + medal_line(
        Placement::Gold,
        stats.gold_medals as int,
    ) + medal_line(Placement::Silver, stats.silver_medals as int) + medal_line(
        Placement::Bronze,
        stats.bronze_medals as int,
    ) + line(Seq::empty()) + bold_line("Gissningsfördelning:"@) + guess_lines(stats, 7)
}

/// Writes the line that tells how many medals of a placement there are.
fn append_medal_line(out: &mut String, placement: Placement, medals: i32)
    ensures
        final(out)@ == old(out)@ + medal_line(placement, medals as int),
{
    let mut text = placement.to_string();
    text.append(" medaljer: **");
    append_decimal(&mut text, medals as i64);
    text.append("**");
    append_line(out, text.as_str());
}

/// The answer to the question for a player's statistics: the games, the
/// medals, and how often each number of guesses came, with a bar for each.
pub fn stats_response(stats: &Stats) -> (response: String)
    requires
        forall|guesses: int| 0 <= guesses <= 6 ==> #[trigger] stats.guesses[guesses] <= stats.played_games,
    ensures
        response@ == stats_text(*stats),
{
    let mut response = String::new();
    let mut games = String::from_str("Antal spelade spel: **");
    append_decimal(&mut games, stats.played_games as i64);
    games.append("**");
    append_line(&mut response, games.as_str());
    append_medal_line(&mut response, Placement::Gold, stats.gold_medals);
    append_medal_line(&mut response, Placement::Silver, stats.silver_medals);
    append_medal_line(&mut response, Placement::Bronze, stats.bronze_medals);
    proof {
        reveal_strlit("");
    }
    append_line(&mut response, "");
    append_bold_line(&mut response, "Gissningsfördelning:");
    let ghost head = response@;
    let mut score: usize = 0;
    while score < 7
        invariant
            score <= 7,
            forall|guesses: int|
                0 <= guesses <= 6 ==> #[trigger] stats.guesses[guesses] <= stats.played_games,
            response@ == head + guess_lines(*stats, score as int),
        decreases 7 - score,
    {
        let count = stats.guesses[score];
        let mut text = String::new();
        append_decimal(&mut text, score as i64);
        text.append("\t|\t");
        append_repeated(&mut text, "█", bar_length(count, stats.played_games));
        text.append("|\t");
        append_decimal(&mut text, count as i64);
        append_line(&mut response, text.as_str());
        score += 1;
    }
    response
}

/// The title of the channel: who leads the day and who leads the cup.
pub open spec fn title_text(leaders: Seq<Seq<char>>, cup_leader: Seq<char>) -> Seq<char> {
    "Dagens ledare: "@ + joined(leaders, ", "@) + "\tCupledare: "@ + cup_leader
}

/// The title of the channel, for the names of those who hold gold today
/// and of the player who leads the cup. Where there is none, the name is
/// left empty.
pub fn channel_title(leaders: &Vec<String>, cup_leader: &str) -> (title: String)
    ensures
        title@ == title_text(texts_of(leaders@), cup_leader@),
{
    let mut title = String::from_str("Dagens ledare: ");
    append_joined(&mut title, leaders, ", ");
    title.append("\tCupledare: ");
    title.append(cup_leader);
    title
}

} // verus!
