//! The number of a cup: the year and the month in which it is played, in UTC,
//! written one after the other without padding, as in `202411` for November
//! 2024.

use crate::text::{append_decimal, decimal};
use chrono::{DateTime, Datelike, Utc};
use vstd::prelude::*;

verus! {

/// The year and the month, in UTC, of the moment that lies `unixtime`
/// seconds after the beginning of 1970, as the calendar of `chrono` gives
/// them. There is none for a moment outside the years that this calendar
/// covers.
pub uninterp spec fn utc_year_month(unixtime: i64) -> Option<(i32, u32)>;

/// Calls `chrono::DateTime::<Utc>::from_timestamp` with no nanoseconds, and
/// reads the year and the month off the result with `Datelike::year` and
/// `Datelike::month`.
///
/// Trusted: the result is a function of `unixtime` alone, named
/// [`utc_year_month`], and a month is numbered from 1 to 12.
#[verifier::external_body]
fn year_month_of_unixtime(unixtime: i64) -> (r: Option<(i32, u32)>)
    ensures
        r == utc_year_month(unixtime),
        r matches Some((_, month)) ==> 1 <= month <= 12,
{
    match DateTime::from_timestamp(unixtime, 0) {
        Some(moment) => Some((moment.year(), moment.month())),
        None => None,
    }
}

/// Reads the clock with `chrono::Utc::now` and takes the year and the month
/// of the day with `Datelike::year` and `Datelike::month`.
///
/// Trusted: a month is numbered from 1 to 12. Nothing else is known of the
/// result, which differs from call to call. `chrono` gives up on a system
/// clock that is set before 1970.
#[verifier::external_body]
fn year_month_now() -> (r: (i32, u32))
    ensures
        1 <= r.1 <= 12,
{
    let today = Utc::now().date_naive();
    (today.year(), today.month())
}

/// The number of the cup of the given year and month.
pub open spec fn cup_key(year: int, month: int) -> Seq<char> {
    decimal(year) + decimal(month)
}

/// The cup of the given year and month as it is shown: year, a slash, month.
pub open spec fn cute_cup_key(year: int, month: int) -> Seq<char> {
    decimal(year) + seq!['/'] + decimal(month)
}

/// `s` is the number of the cup of some month.
pub open spec fn is_cup_key(s: Seq<char>) -> bool {
    exists|year: i32, month: u32| 1 <= month <= 12 && s == #[trigger] cup_key(year as int, month as int)
}

/// `s` shows the cup of some month.
pub open spec fn is_cute_cup_key(s: Seq<char>) -> bool {
    exists|year: i32, month: u32|
        1 <= month <= 12 && s == #[trigger] cute_cup_key(year as int, month as int)
}

/// The number of the cup that is played at the moment `unixtime`.
pub open spec fn cup_key_at(unixtime: i64) -> Seq<char> {
    let (year, month) = utc_year_month(unixtime).unwrap();
    cup_key(year as int, month as int)
}

/// The number of the cup of the given year and month.
pub fn cup_number(year: i32, month: u32) -> (r: String)
    ensures
        r@ == cup_key(year as int, month as int),
{
    let mut r = String::new();
    append_decimal(&mut r, year as i64);
    append_decimal(&mut r, month as i64);
    r
}

/// The cup of the given year and month as it is shown.
pub fn cup_number_cute_format(year: i32, month: u32) -> (r: String)
    ensures
        r@ == cute_cup_key(year as int, month as int),
{
    let mut r = String::new();
    append_decimal(&mut r, year as i64);
    proof {
        reveal_strlit("/");
    }
    r.append("/");
    append_decimal(&mut r, month as i64);
    r
}

/// The number of the cup that is played at the moment `unixtime`, in seconds
/// since the beginning of 1970. The moment has to lie in a year that the
/// calendar covers: see [`checked_cup_number_from_unixtime`].
pub fn cup_number_from_unixtime(unixtime: i64) -> (r: String)
    requires
        utc_year_month(unixtime) is Some,
    ensures
        r@ == cup_key_at(unixtime),
{
    let (year, month) = year_month_of_unixtime(unixtime).unwrap();
    cup_number(year, month)
}

/// The number of the cup that is played at the moment `unixtime`, if the
/// moment lies in a year that the calendar covers.
pub fn checked_cup_number_from_unixtime(unixtime: i64) -> (r: Option<String>)
    ensures
        r is Some <==> utc_year_month(unixtime) is Some,
        r matches Some(cup) ==> cup@ == cup_key_at(unixtime),
{
    match year_month_of_unixtime(unixtime) {
        Some(_) => Some(cup_number_from_unixtime(unixtime)),
        None => None,
    }
}

/// The number of the cup that is played now.
pub fn current_cup_number() -> (r: String)
    ensures
        is_cup_key(r@),
{
    let (year, month) = year_month_now();
    let r = cup_number(year, month);
    r
}

/// The cup that is played now, as it is shown.
pub fn current_cup_number_cute_format() -> (r: String)
    ensures
        is_cute_cup_key(r@),
{
    let (year, month) = year_month_now();
    let r = cup_number_cute_format(year, month);
    r
}

} // verus!
