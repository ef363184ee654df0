//! What can go wrong while a result message is read and recorded.

use vstd::prelude::*;

verus! {

#[derive(Debug, PartialEq, Eq)]
pub enum Error {
    /// The text is not a result message: the `Wordle ` prefix, the day, the
    /// space behind it or the score is missing.
    MalformedMessage,
    /// The score is written with a character that is no number of guesses.
    IlleagalNumberOfGuesses(char),
    /// A score was handed in for a day or by a player that the store does
    /// not know.
    PrecursorMissing,
    /// The store holds as many score sheets as it takes.
    StorageFull,
    /// The message was sent at a moment that the calendar does not cover.
    TimestampOutOfRange,
}

pub type Result<T> = core::result::Result<T, Error>;

/// `String::push` of the standard library appends the character to the
/// string.
pub assume_specification[ String::push ](s: &mut String, ch: char)
    ensures
        final(s)@ == old(s)@.push(ch),
;

impl Error {
    /// What the error says.
    pub open spec fn text(self) -> Seq<char> {
        match self {
            Error::MalformedMessage => "Parse error: not a result message"@,
            Error::IlleagalNumberOfGuesses(x) => "Illeagal number of guesses: "@.push(x),
            Error::PrecursorMissing => "Score handed in for an unknown day or player."@,
            Error::StorageFull => "The score store is full."@,
            Error::TimestampOutOfRange => "Message sent outside the calendar."@,
        }
    }

    pub fn to_string(&self) -> (s: String)
        ensures
            s@ == self.text(),
    {
        match self {
            Error::MalformedMessage => String::from_str("Parse error: not a result message"),
            Error::IlleagalNumberOfGuesses(x) => {
                let mut s = String::from_str("Illeagal number of guesses: ");
                s.push(*x);
                s
            },
            Error::PrecursorMissing => String::from_str(
                "Score handed in for an unknown day or player.",
            ),
            Error::StorageFull => String::from_str("The score store is full."),
            Error::TimestampOutOfRange => String::from_str("Message sent outside the calendar."),
        }
    }
}

} // verus!
