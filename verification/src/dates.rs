//! Calendar dates, held as year, month and day; the calendar arithmetic
//! itself is chrono's.
use vstd::prelude::*;
use crate::text::nat_text;
use chrono::Datelike;

verus! {

/// A date of the proleptic Gregorian calendar.
#[derive(Clone, Copy, Debug, PartialEq, Eq, Structural)]
pub struct CivilDate {
    pub year: i32,
    pub month: u32,
    pub day: u32,
}

/// The earliest year chrono's dates reach.
pub open spec fn min_year() -> int {
    -262143
}

/// The latest year chrono's dates reach.
pub open spec fn max_year() -> int {
    262142
}

pub open spec fn is_leap_year(y: int) -> bool {
    (y % 4 == 0 && y % 100 != 0) || y % 400 == 0
}

pub open spec fn days_in_month(y: int, m: int) -> int {
    if m == 2 {
        if is_leap_year(y) {
            29
        } else {
            28
        }
    } else if m == 4 || m == 6 || m == 9 || m == 11 {
        30
    } else {
        31
    }
}

/// `(y, m, d)` names a day that chrono can represent.
pub open spec fn valid_ymd(y: int, m: int, d: int) -> bool {
    min_year() <= y <= max_year() && 1 <= m <= 12 && 1 <= d <= days_in_month(y, m)
}

pub open spec fn valid_date(d: CivilDate) -> bool {
    valid_ymd(d.year as int, d.month as int, d.day as int)
}

/// Days from 1970-01-01 to the date `(y, m, d)` (negative before it).
pub open spec fn days_from_civil(y: int, m: int, d: int) -> int {
    let yy = if m <= 2 {
        y - 1
    } else {
        y
    };
    let era = yy / 400;
    let yoe = yy - era * 400;
    let mp = (m + 9) % 12;
    let doy = (153 * mp + 2) / 5 + d - 1;
    let doe = yoe * 365 + yoe / 4 - yoe / 100 + doy;
    era * 146097 + doe - 719468
}

pub open spec fn day_number(d: CivilDate) -> int {
    days_from_civil(d.year as int, d.month as int, d.day as int)
}

/// Valid dates lie within a hundred million days of 1970-01-01.
pub proof fn lemma_day_number_bounds(d: CivilDate)
    requires
        valid_date(d),
    ensures
        -100_000_000 <= day_number(d) <= 100_000_000,
{
    let y = d.year as int;
    let m = d.month as int;
    let yy = if m <= 2 { y - 1 } else { y };
    let era = yy / 400;
    let yoe = yy - era * 400;
    assert(-656 <= era <= 656) by (nonlinear_arith)
        requires -262144 <= yy <= 262142, era == yy / 400;
    assert(0 <= yoe < 400) by (nonlinear_arith)
        requires era == yy / 400, yoe == yy - era * 400;
    let mp = (m + 9) % 12;
    let doy = (153 * mp + 2) / 5 + d.day - 1;
    assert(0 <= doy <= 400) by (nonlinear_arith)
        requires 0 <= mp < 12, 1 <= d.day <= 31, doy == (153 * mp + 2) / 5 + d.day - 1;
    let doe = yoe * 365 + yoe / 4 - yoe / 100 + doy;
    assert(0 <= doe <= 146500) by (nonlinear_arith)
        requires 0 <= yoe < 400, 0 <= doy <= 400, doe == yoe * 365 + yoe / 4 - yoe / 100 + doy;
    assert(-656 * 146097 <= era * 146097 <= 656 * 146097) by (nonlinear_arith)
        requires -656 <= era <= 656;
}

/// Day of the week of `d`, counted from Monday (0) to Sunday (6).
pub open spec fn weekday_index(d: CivilDate) -> int {
    (day_number(d) + 3) % 7
}

/// Chronological order of valid dates: by year, then month, then day.
pub open spec fn date_before(a: CivilDate, b: CivilDate) -> bool {
    a.year < b.year || (a.year == b.year && (a.month < b.month || (a.month == b.month && a.day
        < b.day)))
}

/// `n` in decimal with leading zeros up to `width` digits.
pub open spec fn zero_pad(n: nat, width: nat) -> Seq<char> {
    let t = nat_text(n);
    if t.len() < width {
        Seq::new((width - t.len()) as nat, |i: int| '0') + t
    } else {
        t
    }
}

/// The year as `%Y` writes it: four digits from 0 to 9999, otherwise a sign
/// and at least four digits.
pub open spec fn year_text(y: int) -> Seq<char> {
    if 0 <= y <= 9999 {
        zero_pad(y as nat, 4)
    } else if y > 9999 {
        seq!['+'] + zero_pad(y as nat, 4)
    } else {
        seq!['-'] + zero_pad((-y) as nat, 4)
    }
}

/// The date as `%Y-%m-%d` writes it.
pub open spec fn date_text(d: CivilDate) -> Seq<char> {
    year_text(d.year as int) + seq!['-'] + zero_pad(d.month as nat, 2) + seq!['-'] + zero_pad(
        d.day as nat,
        2,
    )
}

/// Whether `a` comes before `b`.
pub fn is_before(a: &CivilDate, b: &CivilDate) -> (r: bool)
    ensures
        r == date_before(*a, *b),
{
    a.year < b.year || (a.year == b.year && (a.month < b.month || (a.month == b.month && a.day
        < b.day)))
}

/// `NaiveDate::from_ymd_opt(y, m, d).is_some()`: whether the date exists in
/// chrono's calendar (years -262143 to 262142, Gregorian months and leap years).
#[verifier::external_body]
pub(crate) fn ymd_is_valid(y: i32, m: u32, d: u32) -> (r: bool)
    ensures
        r == valid_ymd(y as int, m as int, d as int),
{
    chrono::NaiveDate::from_ymd_opt(y, m, d).is_some()
}

/// `chrono::Local::now().date_naive()`: today in the machine's time zone.
/// It depends on the clock and the time zone; all that is stated is that it
/// is a valid date.
#[verifier::external_body]
pub(crate) fn today_local() -> (r: CivilDate)
    ensures
        valid_date(r),
{
    let d = chrono::Local::now().date_naive();
    CivilDate { year: d.year(), month: d.month(), day: d.day() }
}

/// `NaiveDate::weekday().num_days_from_monday()`: the day of the week of a
/// valid date, Monday being 0.
#[verifier::external_body]
pub(crate) fn weekday_of(d: &CivilDate) -> (r: u32)
    requires
        valid_date(*d),
    ensures
        r == weekday_index(*d),
        r < 7,
{
    chrono::NaiveDate::from_ymd_opt(d.year, d.month, d.day).unwrap().weekday().num_days_from_monday()
}

/// `NaiveDate::checked_add_signed(TimeDelta::days(n))`: the date `n` days
/// after a valid date, or `None` when that falls outside chrono's range.
#[verifier::external_body]
pub(crate) fn add_days(d: &CivilDate, n: i64) -> (r: Option<CivilDate>)
    requires
        valid_date(*d),
        -1_000_000 <= n <= 1_000_000,
    ensures
        r is Some <==> days_from_civil(min_year(), 1, 1) <= day_number(*d) + n <= days_from_civil(
            max_year(),
            12,
            31,
        ),
        r matches Some(e) ==> valid_date(e) && day_number(e) == day_number(*d) + n,
{
    let date = chrono::NaiveDate::from_ymd_opt(d.year, d.month, d.day).unwrap();
    match date.checked_add_signed(chrono::TimeDelta::days(n)) {
        Some(e) => Some(CivilDate { year: e.year(), month: e.month(), day: e.day() }),
        None => None,
    }
}

/// `NaiveDate::format("%Y-%m-%d").to_string()` for a valid date.
#[verifier::external_body]
pub(crate) fn format_date(d: &CivilDate) -> (r: String)
    requires
        valid_date(*d),
    ensures
        r@ == date_text(*d),
{
    chrono::NaiveDate::from_ymd_opt(d.year, d.month, d.day).unwrap().format("%Y-%m-%d").to_string()
}

} // verus!
