//! Scoring engine of a monthly cup played over the daily results of a
//! word-guessing game.
//!
//! Players post their result of the day as a message, `Wordle <day>
//! <score>/6`. The engine reads such messages ([`parser`]), keeps one score
//! sheet per player and day ([`database`]), holds the three best scores of
//! every day ([`high_scores`]) and tells who holds gold, silver and bronze
//! ([`medals`], [`bot`]). Over the score sheets of a cup, a calendar month
//! ([`cup`]), it ranks the players by points ([`leaderboard`]), and it
//! notices when a cup has ended and who won it ([`monitor`]). It also words
//! the answers to the questions that players ask ([`command`],
//! [`response`]) and the announcement of a winner ([`announcement`]).
//!
//! The engine does not talk to a chat platform and does not write to disk.
//! It is handed messages as plain values and answers with plain values: what
//! it recorded, and which markers are to be put on which messages.

pub mod announcement;
pub mod bot;
pub mod command;
pub mod cup;
pub mod database;
pub mod error;
pub mod high_scores;
pub mod leaderboard;
pub mod medals;
pub mod monitor;
pub mod parser;
pub mod placement;
pub mod player;
pub mod response;
pub mod scoresheet;
pub mod text;
