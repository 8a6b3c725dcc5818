//! Which schedule to fetch: today's, then yesterday's where today has no game
//! in play; the calendar dates and request addresses that this needs.

use vstd::prelude::*;
use chrono::Datelike;
use crate::text::{digit_char, digit_text};

verus! {

/// The address of the list of current baseball matches of the streaming
/// service.
pub const MATCHES_URL: &'static str = "https://streamed.su/api/matches/baseball";

/// A day of the proleptic Gregorian calendar.
#[derive(Clone, Copy, Debug, PartialEq, Eq, Structural)]
pub struct CalendarDate {
    pub year: i32,
    pub month: u32,
    pub day: u32,
}

pub open spec fn is_leap_year(y: int) -> bool {
    y % 4 == 0 && (y % 100 != 0 || y % 400 == 0)
}

pub open spec fn days_in_month(y: int, m: int) -> int {
    if m == 2 {
        if is_leap_year(y) { 29 } else { 28 }
    } else if m == 4 || m == 6 || m == 9 || m == 11 {
        30
    } else {
        31
    }
}

/// Whether month and day name a day of the calendar.
pub open spec fn is_calendar_day(y: int, m: int, d: int) -> bool {
    1 <= m <= 12 && 1 <= d <= days_in_month(y, m)
}

/// A calendar day of the years 1 to 9999.
pub open spec fn is_valid_date(d: CalendarDate) -> bool {
    1 <= d.year <= 9999 && is_calendar_day(d.year as int, d.month as int, d.day as int)
}

/// The day before `d`.
pub open spec fn day_before(d: CalendarDate) -> CalendarDate {
    if d.day > 1 {
        CalendarDate { year: d.year, month: d.month, day: (d.day - 1) as u32 }
    } else if d.month > 1 {
        CalendarDate {
            year: d.year,
            month: (d.month - 1) as u32,
            day: days_in_month(d.year as int, d.month - 1) as u32,
        }
    } else {
        CalendarDate { year: (d.year - 1) as i32, month: 12, day: 31 }
    }
}

/// `n` written with exactly `width` decimal digits, the leading ones zero.
pub open spec fn fixed_digits(n: nat, width: nat) -> Seq<char>
    decreases width,
{
    if width == 0 {
        Seq::empty()
    } else {
        fixed_digits(n / 10, (width - 1) as nat).push(digit_char(n % 10))
    }
}

/// `YYYY-MM-DD`.
pub open spec fn date_text_of(d: CalendarDate) -> Seq<char> {
    fixed_digits(d.year as nat, 4) + "-"@ + fixed_digits(d.month as nat, 2) + "-"@
        + fixed_digits(d.day as nat, 2)
}

/// The address of the schedule of the day written `date`, with team and
/// line-score details.
pub open spec fn schedule_url_of(date: Seq<char>) -> Seq<char> {
    "http://statsapi.mlb.com/api/v1/schedule?sportId=1&hydrate=team,linescore&date="@ + date
}

/// Relies on chrono's NaiveDate::from_ymd_opt, which refuses a month or day
/// outside the calendar, and NaiveDate::pred_opt, which gives the day before.
#[verifier::external_body]
fn chrono_day_before(year: i32, month: u32, day: u32) -> (r: Option<(i32, u32, u32)>)
    ensures
        !is_calendar_day(year as int, month as int, day as int) ==> r is None,
        is_valid_date(CalendarDate { year, month, day }) ==> r == Some(
            (
                day_before(CalendarDate { year, month, day }).year,
                day_before(CalendarDate { year, month, day }).month,
                day_before(CalendarDate { year, month, day }).day,
            ),
        ),
{
    let p = chrono::NaiveDate::from_ymd_opt(year, month, day)?.pred_opt()?;
    Some((p.year(), p.month(), p.day()))
}

/// The day before `d`; nothing where `d` is not a calendar day.
pub fn previous_day(d: CalendarDate) -> (r: Option<CalendarDate>)
    ensures
        is_valid_date(d) ==> r == Some(day_before(d)),
        !is_calendar_day(d.year as int, d.month as int, d.day as int) ==> r is None,
{
    match chrono_day_before(d.year, d.month, d.day) {
        Some((year, month, day)) => Some(CalendarDate { year, month, day }),
        None => None,
    }
}

fn fixed_digits_text(n: u32, width: u32) -> (r: String)
    ensures
        r@ == fixed_digits(n as nat, width as nat),
{
    let mut rest: u32 = n;
    let mut left: u32 = width;
    let mut out = String::new();
    assert(fixed_digits(n as nat, width as nat) =~= fixed_digits(rest as nat, left as nat) + out@);
    while left > 0
        invariant
            fixed_digits(n as nat, width as nat) == fixed_digits(rest as nat, left as nat) + out@,
        decreases left,
    {
        let next = String::from_str(digit_text((rest % 10) as u64)).concat(out.as_str());
        assert(fixed_digits(rest as nat, left as nat) + out@ =~= fixed_digits(
            (rest / 10) as nat,
            (left - 1) as nat,
        ) + next@);
        out = next;
        rest = rest / 10;
        left = left - 1;
    }
    assert(fixed_digits(rest as nat, 0) + out@ =~= out@);
    out
}

/// Writes a date as `YYYY-MM-DD`.
pub fn date_text(d: CalendarDate) -> (r: String)
    requires
        0 <= d.year <= 9999,
    ensures
        r@ == date_text_of(d),
{
    let mut r = fixed_digits_text(d.year as u32, 4);
    r.append("-");
    r.append(fixed_digits_text(d.month, 2).as_str());
    r.append("-");
    r.append(fixed_digits_text(d.day, 2).as_str());
    r
}

/// The address of the schedule of the day written `date`.
pub fn schedule_url(date: &str) -> (r: String)
    ensures
        r@ == schedule_url_of(date@),
{
    let mut r = String::from_str(
        "http://statsapi.mlb.com/api/v1/schedule?sportId=1&hydrate=team,linescore&date=",
    );
    r.append(date);
    r
}

/// The day whose schedule is asked for.
#[derive(Clone, Copy, Debug, PartialEq, Eq, Structural)]
pub enum Day {
    Today,
    Yesterday,
}

/// What to do once a schedule has been read.
#[derive(Clone, Copy, Debug, PartialEq, Eq, Structural)]
pub enum Step {
    /// Fetch the schedule of that day.
    Fetch(Day),
    /// Offer the games read for selection.
    Present,
}

/// After reading `found` games for `day`: an empty day today sends to
/// yesterday's schedule; anything else is offered as it is.
pub open spec fn step_after(day: Day, found: nat) -> Step {
    if day == Day::Today && found == 0 {
        Step::Fetch(Day::Yesterday)
    } else {
        Step::Present
    }
}

/// The first step: fetch today's schedule.
pub fn first_step() -> (r: Step)
    ensures
        r == Step::Fetch(Day::Today),
{
    Step::Fetch(Day::Today)
}

/// The step after reading `found` games in the schedule of `day`.
pub fn next_step(day: Day, found: usize) -> (r: Step)
    ensures
        r == step_after(day, found as nat),
{
    if day == Day::Today && found == 0 {
        Step::Fetch(Day::Yesterday)
    } else {
        Step::Present
    }
}

/// The date of `day`, `today` being the current date.
pub fn date_of(day: Day, today: CalendarDate) -> (r: Option<CalendarDate>)
    ensures
        day == Day::Today ==> r == Some(today),
        day == Day::Yesterday && is_valid_date(today) ==> r == Some(day_before(today)),
        day == Day::Yesterday && !is_calendar_day(
            today.year as int,
            today.month as int,
            today.day as int,
        ) ==> r is None,
{
    match day {
        Day::Today => Some(today),
        Day::Yesterday => previous_day(today),
    }
}

/// Today's schedule comes first; where it has no game in play, yesterday's
/// is fetched before anything is offered, and no day is tried after that:
/// whatever yesterday holds is offered, an empty list included.
pub proof fn lemma_yesterday_once(found_today: nat, found_yesterday: nat)
    ensures
        found_today == 0 ==> step_after(Day::Today, found_today) == Step::Fetch(Day::Yesterday),
        found_today > 0 ==> step_after(Day::Today, found_today) == Step::Present,
        step_after(Day::Yesterday, found_yesterday) == Step::Present,
{
}

} // verus!
