//! Academic years and the window of enrolment years that is scraped.

use chrono::Datelike;
use vstd::prelude::*;

verus! {

/// The month in which an academic year opens.
pub const SEPTEMBER: u32 = 9;

/// The number of enrolment years scraped for each degree.
pub const YEARS_PER_DEGREE: u32 = 3;

/// The academic year open in the given calendar year and month, named by the
/// calendar year in which it opened.
pub open spec fn academic_year_of(year: int, month: int) -> int {
    if month >= 9 {
        year
    } else {
        year - 1
    }
}

/// The first year of the scraping window for the academic year `current`.
pub open spec fn window_start(current: int) -> int {
    if current >= 4 {
        current - 4
    } else {
        0
    }
}

/// The year just after the scraping window for the academic year `current`:
/// the window stops before the previous academic year.
pub open spec fn window_end(current: int) -> int {
    if current >= 1 {
        current - 1
    } else {
        0
    }
}

/// The years of the scraping window, ascending: the three years that end two
/// years before `current` (fewer where they would precede year zero).
pub open spec fn window_years(current: int) -> Seq<int> {
    Seq::new(
        (window_end(current) - window_start(current)) as nat,
        |i: int| window_start(current) + i,
    )
}

/// Relies on `chrono::Local::now` with `Datelike::year_ce` and
/// `Datelike::month`: a year of the common era counted from 1, and a month
/// from 1 to 12.
#[verifier::external_body]
fn local_year_and_month() -> (r: (u32, u32))
    ensures
        r.0 >= 1,
        1 <= r.1 <= 12,
{
    let now = chrono::Local::now();
    (now.year_ce().1, now.month())
}

/// The academic year open in the given calendar year and month.
pub fn academic_year(year: u32, month: u32) -> (r: u32)
    requires
        year >= 1,
    ensures
        r == academic_year_of(year as int, month as int),
{
    if month >= SEPTEMBER {
        year
    } else {
        year - 1
    }
}

/// The academic year open now, by the local clock.
pub fn current_academic_year() -> (r: u32)
    ensures
        exists|y: int, m: int| 1 <= y && 1 <= m <= 12 && r == academic_year_of(y, m),
{
    let (y, m) = local_year_and_month();
    academic_year(y, m)
}

/// The years of the scraping window for the academic year `current`, ascending.
pub fn scraping_window(current: u32) -> (r: Vec<u32>)
    ensures
        r@.len() == window_years(current as int).len(),
        forall|i: int| 0 <= i < r@.len() ==> r@[i] == window_years(current as int)[i],
{
    let end: u32 = if current >= 1 { current - 1 } else { 0 };
    let start: u32 = if current >= YEARS_PER_DEGREE + 1 { current - (YEARS_PER_DEGREE + 1) } else { 0 };
    let mut r: Vec<u32> = Vec::new();
    let mut y: u32 = start;
    while y < end
        invariant
            start == window_start(current as int),
            end == window_end(current as int),
            start <= y <= end,
            r@.len() == y - start,
            forall|i: int| 0 <= i < r@.len() ==> r@[i] == start + i,
        decreases end - y,
    {
        r.push(y);
        y = y + 1;
    }
    r
}

/// No year of the scraping window is the current academic year or the one
/// before it: every year of the window lies at least two years back.
pub proof fn lemma_window_excludes_recent_years(current: int)
    ensures
        forall|i: int|
            0 <= i < window_years(current).len() ==> window_years(current)[i] <= current - 2,
        forall|i: int|
            0 <= i < window_years(current).len() ==> window_years(current)[i] != current
                && window_years(current)[i] != current - 1,
{
}

/// Crossing into September moves the academic year, and with it every year of
/// the scraping window, forward by exactly one.
pub proof fn lemma_window_shifts_in_september(year: int, before: int, after: int)
    requires
        1 <= before < 9,
        9 <= after <= 12,
        academic_year_of(year, before) >= 4,
    ensures
        academic_year_of(year, after) == academic_year_of(year, before) + 1,
        window_years(academic_year_of(year, after)).len() == window_years(
            academic_year_of(year, before),
        ).len(),
        forall|i: int|
            0 <= i < window_years(academic_year_of(year, after)).len() ==> window_years(
                academic_year_of(year, after),
            )[i] == window_years(academic_year_of(year, before))[i] + 1,
{
}

} // verus!
