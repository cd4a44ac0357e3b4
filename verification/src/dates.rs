//! Calendar dates of tasks, read with `chrono`.

use vstd::prelude::*;

verus! {

/// The day number (days since the start of the proleptic Gregorian era,
/// 0001-01-01 being day 1) of the date that `chrono` reads from `s` in
/// the format `%Y-%m-%d`, or none when `s` is not such a date.
pub uninterp spec fn ymd_day_number(s: Seq<char>) -> Option<i32>;

/// `chrono::NaiveDate::parse_from_str(s, "%Y-%m-%d")`, with the parsed date
/// handed out as its day number (`Datelike::num_days_from_ce`). The result
/// is a function of `s` alone; what it is for a given text is left to the
/// name `ymd_day_number`.
#[verifier::external_body]
pub(crate) fn parse_day_number(s: &str) -> (r: Option<i32>)
    ensures
        r == ymd_day_number(s@),
{
    match chrono::NaiveDate::parse_from_str(s, "%Y-%m-%d") {
        Ok(d) => Some(chrono::Datelike::num_days_from_ce(&d)),
        Err(_) => None,
    }
}

/// How long a task has been waiting, as its colour shows it.
#[derive(Copy, Clone, Debug, PartialEq, Eq, Structural)]
pub enum Staleness {
    /// Under 7 days old, or of unknown age.
    Fresh,
    /// 7 to 13 days old.
    Aging,
    /// 14 days old or more.
    Stale,
}

/// The staleness of a task of the given age in days, if known.
pub open spec fn spec_staleness_of_age(days: Option<i64>) -> Staleness {
    match days {
        Some(d) => if d >= 14 {
            Staleness::Stale
        } else if d >= 7 {
            Staleness::Aging
        } else {
            Staleness::Fresh
        },
        None => Staleness::Fresh,
    }
}

/// Tasks older than 7 days are aging; older than 14 days, stale.
pub fn staleness_of_age(days: Option<i64>) -> (r: Staleness)
    ensures
        r == spec_staleness_of_age(days),
{
    match days {
        Some(d) => if d >= 14 {
            Staleness::Stale
        } else if d >= 7 {
            Staleness::Aging
        } else {
            Staleness::Fresh
        },
        None => Staleness::Fresh,
    }
}

/// The age in days, on the day numbered `today`, of a task created on the
/// date written in `created_at`; none when that is empty or not a date.
pub open spec fn spec_age(created_at: Seq<char>, today: i32) -> Option<i64> {
    if created_at.len() == 0 {
        None
    } else {
        match ymd_day_number(created_at) {
            Some(d) => Some((today - d) as i64),
            None => None,
        }
    }
}

/// The staleness of a task created on `created_at` (`%Y-%m-%d`), on the day
/// numbered `today`.
pub fn staleness(created_at: &str, today: i32) -> (r: Staleness)
    ensures
        r == spec_staleness_of_age(spec_age(created_at@, today)),
{
    if created_at.is_empty() {
        return Staleness::Fresh;
    }
    match parse_day_number(created_at) {
        Some(d) => {
            let days: i64 = today as i64 - d as i64;
            staleness_of_age(Some(days))
        },
        None => Staleness::Fresh,
    }
}

} // verus!
