//! Reads a result message, `Wordle <day> <score>/6`, into the day's number
//! and the number of guesses.
//!
//! The day is a decimal integer with an optional sign. The score is a single
//! character: `1` to `6` for the number of guesses, `X` or `0` for a failed
//! attempt, which counts as `0` guesses. Whatever follows the score is not
//! looked at.

use crate::error::{Error, Result};
use vstd::prelude::*;

verus! {

/// The prefix every result message starts with.
pub open spec fn wordle_tag() -> Seq<char> {
    seq!['W', 'o', 'r', 'd', 'l', 'e', ' ']
}

pub open spec fn is_digit(c: char) -> bool {
    '0' <= c && c <= '9'
}

pub open spec fn digit_value(c: char) -> int {
    c as int - '0' as int
}

/// The end of the run of digits that starts at `from`: the first position
/// from there on that holds no digit.
pub open spec fn digits_end(s: Seq<char>, from: int) -> int
    decreases s.len() - from,
{
    if 0 <= from < s.len() && is_digit(s[from]) {
        digits_end(s, from + 1)
    } else {
        from
    }
}

/// The number that a sequence of digits denotes in base ten.
pub open spec fn decimal_value(digits: Seq<char>) -> int
    decreases digits.len(),
{
    if digits.len() == 0 {
        0
    } else {
        10 * decimal_value(digits.drop_last()) + digit_value(digits.last())
    }
}

/// Whether the text starts with a sign.
pub open spec fn has_sign(s: Seq<char>) -> bool {
    s.len() > 0 && (s[0] == '-' || s[0] == '+')
}

/// The integer that the text starts with, as read by [`parse_day`], and the
/// number of characters it takes. There is none if no digit follows the
/// optional sign, or if the number does not fit in an `i64`.
pub open spec fn leading_integer(s: Seq<char>) -> Option<(int, i64)> {
    let start: int = if has_sign(s) { 1 } else { 0 };
    let end = digits_end(s, start);
    let magnitude = decimal_value(s.subrange(start, end));
    let value = if has_sign(s) && s[0] == '-' { -magnitude } else { magnitude };
    if start < end && i64::MIN <= value <= i64::MAX {
        Some((end, value as i64))
    } else {
        None
    }
}

/// The number of guesses that a score character stands for.
pub open spec fn guesses_of(c: char) -> Option<i64> {
    if c == 'X' || c == '0' {
        Some(0)
    } else if '1' <= c && c <= '6' {
        Some(digit_value(c) as i64)
    } else {
        None
    }
}

/// What [`parse_score`] reads: the number of characters taken and the number
/// of guesses.
pub open spec fn score_of(s: Seq<char>) -> Result<(int, i64)> {
    if s.len() == 0 {
        Err(Error::MalformedMessage)
    } else {
        match guesses_of(s[0]) {
            Some(guesses) => Ok((1, guesses)),
            None => Err(Error::IlleagalNumberOfGuesses(s[0])),
        }
    }
}

/// What [`parse_day_and_score`] reads: the number of characters taken, the
/// day and the number of guesses.
pub open spec fn day_and_score_of(s: Seq<char>) -> Result<(int, (i64, i64))> {
    match leading_integer(s) {
        None => Err(Error::MalformedMessage),
        Some((end, day)) => {
            if end < s.len() && s[end] == ' ' {
                match score_of(s.skip(end + 1)) {
                    Ok((taken, guesses)) => Ok((end + 1 + taken, (day, guesses))),
                    Err(e) => Err(e),
                }
            } else {
                Err(Error::MalformedMessage)
            }
        },
    }
}

/// What [`parse_wordle`] reads from a whole message.
pub open spec fn wordle_of(s: Seq<char>) -> Result<(int, (i64, i64))> {
    if wordle_tag().is_prefix_of(s) {
        match day_and_score_of(s.skip(wordle_tag().len() as int)) {
            Ok((taken, found)) => Ok((wordle_tag().len() + taken, found)),
            Err(e) => Err(e),
        }
    } else {
        Err(Error::MalformedMessage)
    }
}

/// The day and the number of guesses that a message reports.
pub open spec fn message_of(s: Seq<char>) -> Result<(i64, i64)> {
    match wordle_of(s) {
        Ok((_, found)) => Ok(found),
        Err(e) => Err(e),
    }
}

/// A parser's result `r` on the text `s` is what `expected` says: the same
/// value and the text behind the characters taken, or the same error.
pub open spec fn reads<T>(s: Seq<char>, r: Result<(&str, T)>, expected: Result<(int, T)>) -> bool {
    match (r, expected) {
        (Ok((rest, value)), Ok((taken, v))) => {
            0 <= taken <= s.len() && rest@ == s.skip(taken) && value == v
        },
        (Err(e), Err(f)) => e == f,
        _ => false,
    }
}

/// The run of digits that starts at `from` ends at `from` or behind it,
/// inside the text, and holds digits only.
proof fn lemma_digits_end_step(s: Seq<char>, from: int)
    ensures
        from <= digits_end(s, from),
        from >= 0 ==> digits_end(s, from) <= s.len() || digits_end(s, from) == from,
        forall|k: int| from <= k < digits_end(s, from) ==> is_digit(#[trigger] s[k]),
    decreases s.len() - from,
{
    if 0 <= from < s.len() && is_digit(s[from]) {
        lemma_digits_end_step(s, from + 1);
    }
}

/// A sequence of digits denotes at least what any of its prefixes denotes.
proof fn lemma_decimal_value_grows(digits: Seq<char>, n: int)
    requires
        0 <= n <= digits.len(),
        forall|k: int| 0 <= k < digits.len() ==> is_digit(#[trigger] digits[k]),
    ensures
        0 <= decimal_value(digits.take(n)) <= decimal_value(digits),
    decreases digits.len(),
{
    if digits.len() > 0 {
        let front = digits.drop_last();
        lemma_decimal_value_grows(front, front.len() as int);
        if n == digits.len() {
            assert(digits.take(n) =~= digits);
        } else {
            lemma_decimal_value_grows(front, n);
            assert(front.take(n) =~= digits.take(n));
        }
    }
}

/// A message that can be read reports `0` to `6` guesses.
pub proof fn lemma_score_range(s: Seq<char>)
    ensures
        message_of(s) matches Ok((_, score)) ==> 0 <= score <= 6,
{
}

/// The characters of a text, one by one.
fn chars_of(s: &str) -> (v: Vec<char>)
    ensures
        v@ == s@,
{
    let mut v: Vec<char> = Vec::new();
    for c in it: s.chars()
        invariant
            it.seq() == s@,
            v@ == s@.take(it.index() as int),
    {
        v.push(c);
    }
    v
}

/// Takes `prefix` off the front of `s`.
fn tag<'a>(prefix: &str, s: &'a str) -> (r: Option<&'a str>)
    ensures
        prefix@.is_prefix_of(s@) <==> r is Some,
        r matches Some(rest) ==> rest@ == s@.skip(prefix@.len() as int),
{
    let want = chars_of(prefix);
    let have = chars_of(s);
    if have.len() < want.len() {
        return None;
    }
    let mut i: usize = 0;
    while i < want.len()
        invariant
            want@ == prefix@,
            have@ == s@,
            i <= want.len() <= have.len(),
            forall|k: int| 0 <= k < i ==> want@[k] == have@[k],
        decreases want.len() - i,
    {
        if want[i] != have[i] {
            return None;
        }
        i += 1;
    }
    Some(s.substring_char(want.len(), have.len()))
}

/// The word by which a message is taken for a result message.
pub open spec fn wordle_word() -> Seq<char> {
    seq!['W', 'o', 'r', 'd', 'l', 'e']
}

/// Whether the message sets out as a result message does. Only such
/// messages are read.
pub fn starts_with_wordle(s: &str) -> (r: bool)
    ensures
        r == wordle_word().is_prefix_of(s@),
{
    proof {
        reveal_strlit("Wordle");
    }
    tag("Wordle", s).is_some()
}

/// Asserts that the line starts with `Wordle `, and drops it.
pub fn parse_wordle_str(s: &str) -> (r: Result<(&str, ())>)
    ensures
        r is Ok <==> wordle_tag().is_prefix_of(s@),
        r matches Ok((rest, _)) ==> rest@ == s@.skip(wordle_tag().len() as int),
        r matches Err(e) ==> e == Error::MalformedMessage,
{
    proof {
        reveal_strlit("Wordle ");
    }
    match tag("Wordle ", s) {
        Some(rest) => Ok((rest, ())),
        None => Err(Error::MalformedMessage),
    }
}

/// Parses the number that the text starts with: an optional sign, then
/// digits up to the first character that is none.
pub fn parse_day(s: &str) -> (r: Result<(&str, i64)>)
    ensures
        reads(
            s@,
            r,
            match leading_integer(s@) {
                Some(found) => Ok(found),
                None => Err(Error::MalformedMessage),
            },
        ),
{
    let chars = chars_of(s);
    let n = chars.len();
    let negative = n > 0 && chars[0] == '-';
    let start: usize = if n > 0 && (chars[0] == '-' || chars[0] == '+') { 1 } else { 0 };
    let mut pos: usize = start;
    let mut value: i64 = 0;
    proof {
        lemma_digits_end_step(s@, start as int);
    }
    while pos < n && '0' <= chars[pos] && chars[pos] <= '9'
        invariant
            chars@ == s@,
            n == chars.len(),
            negative == (has_sign(s@) && s@[0] == '-'),
            start == (if has_sign(s@) { 1int } else { 0int }),
            start <= pos <= n,
            digits_end(s@, pos as int) == digits_end(s@, start as int),
            pos <= digits_end(s@, start as int) <= n,
            forall|k: int| start <= k < digits_end(s@, start as int) ==> is_digit(#[trigger] s@[k]),
            negative ==> value == -decimal_value(s@.subrange(start as int, pos as int)),
            !negative ==> value == decimal_value(s@.subrange(start as int, pos as int)),
        decreases n - pos,
    {
        let digit: i64 = (chars[pos] as u32 - '0' as u32) as i64;
        let ghost end = digits_end(s@, start as int);
        let ghost run = s@.subrange(start as int, end);
        let ghost seen = s@.subrange(start as int, pos as int + 1);
        proof {
            lemma_digits_end_step(s@, pos as int + 1);
            assert(seen.drop_last() =~= s@.subrange(start as int, pos as int));
            assert(run.take(pos + 1 - start) =~= seen);
            lemma_decimal_value_grows(run, pos + 1 - start);
        }
        let shifted = match value.checked_mul(10) {
            Some(shifted) => shifted,
            None => {
                return Err(Error::MalformedMessage);
            },
        };
        let next = if negative {
            shifted.checked_sub(digit)
        } else {
            shifted.checked_add(digit)
        };
        value = match next {
            Some(next) => next,
            None => {
                return Err(Error::MalformedMessage);
            },
        };
        pos += 1;
    }
    if pos == start {
        return Err(Error::MalformedMessage);
    }
    Ok((s.substring_char(pos, n), value))
}

/// Parses the score character into the number of guesses.
pub fn parse_score(s: &str) -> (r: Result<(&str, i64)>)
    ensures
        reads(s@, r, score_of(s@)),
{
    let chars = chars_of(s);
    if chars.len() == 0 {
        return Err(Error::MalformedMessage);
    }
    let c = chars[0];
    let guesses: i64 = if c == 'X' || c == '0' {
        0
    } else if '1' <= c && c <= '6' {
        (c as u32 - '0' as u32) as i64
    } else {
        return Err(Error::IlleagalNumberOfGuesses(c));
    };
    Ok((s.substring_char(1, chars.len()), guesses))
}

/// Parses a day and a score with one space between them.
pub fn parse_day_and_score(s: &str) -> (r: Result<(&str, (i64, i64))>)
    ensures
        reads(s@, r, day_and_score_of(s@)),
{
    let (after_day, day) = match parse_day(s) {
        Ok(found) => found,
        Err(e) => {
            return Err(e);
        },
    };
    proof {
        reveal_strlit(" ");
    }
    let after_space = match tag(" ", after_day) {
        Some(rest) => rest,
        None => {
            return Err(Error::MalformedMessage);
        },
    };
    let ghost end = leading_integer(s@).unwrap().0;
    proof {
        assert(after_day@.subrange(0, 1)[0] == ' ');
    }
    match parse_score(after_space) {
        Ok((rest, guesses)) => {
            proof {
                let taken = score_of(after_space@).unwrap().0;
                assert(rest@ =~= s@.skip(end + 1 + taken));
            }
            Ok((rest, (day, guesses)))
        },
        Err(e) => Err(e),
    }
}

/// Parses a whole message: the `Wordle ` prefix, then day and score.
pub fn parse_wordle(s: &str) -> (r: Result<(&str, (i64, i64))>)
    ensures
        reads(s@, r, wordle_of(s@)),
{
    let after_tag = match parse_wordle_str(s) {
        Ok((rest, _)) => rest,
        Err(e) => {
            return Err(e);
        },
    };
    match parse_day_and_score(after_tag) {
        Ok((rest, found)) => {
            proof {
                let taken = day_and_score_of(after_tag@).unwrap().0;
                assert(rest@ =~= s@.skip(wordle_tag().len() + taken));
            }
            Ok((rest, found))
        },
        Err(e) => Err(e),
    }
}

/// Parses a result message `Wordle <day> <score>/6` into `(day, score)`.
pub fn parse_msg(s: &str) -> (r: Result<(i64, i64)>)
    ensures
        r == message_of(s@),
{
    match parse_wordle(s) {
        Ok((_, found)) => Ok(found),
        Err(e) => Err(e),
    }
}

} // verus!
