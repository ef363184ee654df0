//! The words with which the end of a cup is announced.

use rand::seq::IteratorRandom;
use vstd::prelude::*;

verus! {

/// The congratulations to pick from, each as what stands before the
/// winner's name and what stands behind it.
pub const CONGRATULATIONS: [(&'static str, &'static str); 10] = [
    ("@here Grattis ", " till segern i wordlecupen, du är verkligen bäst!"),
    ("@here Stort grattis till ", " som vann wordlecupen, du är en riktig mästare!"),
    ("@here Wow! Grattis ", " till att ha erövrat wordlecupen, du är grym!"),
    ("@here Fantastiskt jobbat, ", "! Du är en vinnare och tar hem wordlecupen med bravur!"),
    ("@here Grattis, ", "! Du har lyckats bli mästaren i wordlecupen, en värdig vinnare!"),
    ("@here Stort grattis till ", " för att ha vunnit wordlecupen, du är en riktig mästare!"),
    ("@here Fantastiskt jobbat, ", "! Du har tagit hem segern i wordlecupen, du är grymt bra!"),
    (
        "@here Grattis, ",
        "! Ditt framstående spel har belönats med vinsten i wordlecupen, du är verkligen bäst!",
    ),
    ("@here Wow! ", ", du är en riktig vinnare som har erövrat wordlecupen. Stort grattis!"),
    (
        "@here Enorma gratulationer till ",
        " för att ha segrat i wordlecupen. Du är en otroligt skicklig spelare!",
    ),
];

/// What is said when a cup ends without a winner.
pub open spec fn no_winner_text() -> Seq<char> {
    "Ingen vinnare i denna cup."@
}

/// The congratulation number `pick` for the winner called `nick`.
pub open spec fn congratulation_text(pick: int, nick: Seq<char>) -> Seq<char> {
    CONGRATULATIONS[pick].0@ + nick + CONGRATULATIONS[pick].1@
}

/// Calls `rand::seq::IteratorRandom::choose` on the numbers from `0` up to
/// `len`, with the generator of `rand::thread_rng`.
///
/// Trusted: there is no choice among no numbers, and a number that is
/// chosen is one of those offered. Which one it is differs from call to
/// call.
#[verifier::external_body]
fn choose_index(len: usize) -> (r: Option<usize>)
    ensures
        r is None <==> len == 0,
        r matches Some(i) ==> i < len,
{
    (0..len).choose(&mut rand::thread_rng())
}

/// The congratulation number `pick` for the winner called `nick`.
pub fn congratulation(pick: usize, nick: &str) -> (r: String)
    requires
        pick < 10,
    ensures
        r@ == congratulation_text(pick as int, nick@),
{
    let (before, after) = CONGRATULATIONS[pick];
    let mut r = String::from_str(before);
    r.append(nick);
    r.append(after);
    r
}

/// Announces the end of a cup: with one of the congratulations, picked at
/// random, if there is a winner, who is called by `nick`.
pub fn announcement(nick: Option<&str>) -> (r: String)
    ensures
        nick is None ==> r@ == no_winner_text(),
        nick matches Some(nick) ==> exists|pick: int|
            0 <= pick < 10 && r@ == #[trigger] congratulation_text(pick, nick@),
{
    match nick {
        None => String::from_str("Ingen vinnare i denna cup."),
        Some(nick) => {
            let pick = choose_index(10).unwrap();
            let r = congratulation(pick, nick);
            r
        },
    }
}

} // verus!
