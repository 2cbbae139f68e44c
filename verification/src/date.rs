//! Calendar days. A day is a year, a month and a day of the proleptic Gregorian
//! calendar; its number counts days from 1 January of the year 1, which is day 1.
//! The calendar itself is computed by `chrono`.

use crate::text;
use chrono::{Datelike, Timelike};
use vstd::prelude::*;

verus! {

/// The years that `chrono` can represent.
pub const MIN_YEAR: i32 = -262143;

pub const MAX_YEAR: i32 = 262142;

pub open spec fn is_leap(y: int) -> bool {
    y % 4 == 0 && (y % 100 != 0 || y % 400 == 0)
}

pub open spec fn month_len(y: int, m: int) -> int {
    if m == 2 {
        if is_leap(y) { 29 } else { 28 }
    } else if m == 4 || m == 6 || m == 9 || m == 11 {
        30
    } else {
        31
    }
}

/// The days of year `y` before month `m`.
pub open spec fn days_before(y: int, m: int) -> int
    decreases m,
{
    if m <= 1 {
        0
    } else {
        days_before(y, m - 1) + month_len(y, m - 1)
    }
}

/// The days before 1 January of year `y`, counted from the year 1.
pub open spec fn year_start(y: int) -> int {
    365 * (y - 1) + (y - 1) / 4 - (y - 1) / 100 + (y - 1) / 400
}

pub open spec fn valid_ymd(y: int, m: int, d: int) -> bool {
    MIN_YEAR <= y <= MAX_YEAR && 1 <= m <= 12 && 1 <= d <= month_len(y, m)
}

pub open spec fn day_number(y: int, m: int, d: int) -> int {
    year_start(y) + days_before(y, m) + d
}

/// The numbers of the first and the last day that can be represented.
pub open spec fn first_day() -> int {
    day_number(MIN_YEAR as int, 1, 1)
}

pub open spec fn last_day() -> int {
    day_number(MAX_YEAR as int, 12, 31)
}

/// A day's number, where there is such a day.
pub open spec fn existing(n: int) -> Option<int> {
    if first_day() <= n <= last_day() {
        Some(n)
    } else {
        None
    }
}

/// `r` is the day of that number, absent where there is none.
pub open spec fn is_day(r: Option<Date>, n: Option<int>) -> bool {
    match r {
        Some(d) => d.wf() && n == Some(d.number()),
        None => n is None,
    }
}

/// A year as it stands in a date: four digits, with a sign where it is not
/// between 0 and 9999.
pub open spec fn year_text(y: int) -> Seq<char> {
    if 0 <= y <= 9999 {
        four_digits(y as nat)
    } else if y < 0 {
        seq!['-'] + four_digits((-y) as nat)
    } else {
        seq!['+'] + four_digits(y as nat)
    }
}

/// `n` in decimal, with zeros in front where it has fewer than four digits.
pub open spec fn four_digits(n: nat) -> Seq<char> {
    if n < 10 {
        "000"@ + text::decimal(n)
    } else if n < 100 {
        "00"@ + text::decimal(n)
    } else if n < 1000 {
        "0"@ + text::decimal(n)
    } else {
        text::decimal(n)
    }
}

/// The writing `YYYY-MM-DD` of a day.
pub open spec fn iso(y: int, m: int, d: int) -> Seq<char> {
    year_text(y) + "-"@ + text::two_digits(m as nat) + "-"@ + text::two_digits(d as nat)
}

/// The writing `YYYY/M/D` of a day.
pub open spec fn slashed(y: int, m: int, d: int) -> Seq<char> {
    year_text(y) + "/"@ + text::decimal(m as nat) + "/"@ + text::decimal(d as nat)
}

/// The writing `MM-DD` of a day of some year.
pub open spec fn in_year(m: int, d: int) -> Seq<char> {
    text::two_digits(m as nat) + "-"@ + text::two_digits(d as nat)
}

/// The same after a year that is written without zeros in front.
pub open spec fn dated(y: int, m: int, d: int) -> Seq<char> {
    text::decimal(y as nat) + "-"@ + in_year(m, d)
}

/// A year, a month and a day in figures that can be written in four, two and two digits.
pub open spec fn in_figures(y: int, m: int, d: int) -> bool {
    0 <= y <= 9999 && 0 <= m <= 99 && 0 <= d <= 99
}

/// The day of these figures, where it exists.
pub open spec fn ymd_of(y: int, m: int, d: int) -> Option<(int, int, int)> {
    if valid_ymd(y, m, d) {
        Some((y, m, d))
    } else {
        None
    }
}

#[derive(Clone, Copy, Debug, PartialEq, Eq, Structural)]
pub struct Date {
    pub year: i32,
    pub month: u32,
    pub day: u32,
}

impl Date {
    /// The day exists.
    pub open spec fn wf(self) -> bool {
        valid_ymd(self.year as int, self.month as int, self.day as int)
    }

    pub open spec fn number(self) -> int {
        day_number(self.year as int, self.month as int, self.day as int)
    }

    /// The writing `YYYY-MM-DD` of the day.
    pub open spec fn text(self) -> Seq<char> {
        iso(self.year as int, self.month as int, self.day as int)
    }

    /// The writing `YYYY/M/D` of the day.
    pub open spec fn slashed(self) -> Seq<char> {
        slashed(self.year as int, self.month as int, self.day as int)
    }

    /// The weekday, counted from Monday as 0.
    pub open spec fn weekday(self) -> int {
        (self.number() - 1) % 7
    }
}

/// The day whose number is `n`.
pub open spec fn date_at(n: int) -> Date {
    choose|d: Date| d.wf() && #[trigger] d.number() == n
}

#[derive(Clone, Copy, Debug, PartialEq, Eq, Structural)]
pub enum Weekday {
    Mon,
    Tue,
    Wed,
    Thu,
    Fri,
    Sat,
    Sun,
}

/// A reading of the local clock.
#[derive(Clone, Copy, Debug, PartialEq, Eq, Structural)]
pub struct Moment {
    pub date: Date,
    pub hour: u32,
    pub minute: u32,
}

impl Moment {
    pub open spec fn wf(self) -> bool {
        self.date.wf() && self.hour < 24 && self.minute < 60
    }
}

/// What `chrono::NaiveDate::parse_from_str` makes of a text under a format.
pub uninterp spec fn date_read(text: Seq<char>, format: Seq<char>) -> Option<(int, int, int)>;

pub open spec fn ymd(d: Option<Date>) -> Option<(int, int, int)> {
    match d {
        Some(d) => Some((d.year as int, d.month as int, d.day as int)),
        None => None,
    }
}

/// `c` stands in `s` at two places.
pub open spec fn twice(s: Seq<char>, c: char) -> bool {
    exists|i: int, j: int| 0 <= i < j < s.len() && s[i] == c && s[j] == c
}

/// `chrono::NaiveDate::parse_from_str`: the reading is a function of the text and
/// the format, and what is read exists. Each literal of the format has to stand in
/// the text, so nothing is read under `%Y-%m-%d` from a text without two hyphens,
/// nor under `%Y/%m/%d` from one without two slashes. From figures that are written as
/// `YYYY-MM-DD`, with or without the zeros in front of the year, or as `YYYY/M/D` under the
/// other format, with a year of 0 to 9999, the day that they name is read where it
/// exists, and nothing where it does not.
#[verifier::external_body]
pub(crate) fn parse_date(text: &str, format: &str) -> (r: Option<Date>)
    ensures
        ymd(r) == date_read(text@, format@),
        r is Some ==> r->0.wf(),
        format@ == "%Y-%m-%d"@ && !twice(text@, '-') ==> r is None,
        format@ == "%Y/%m/%d"@ && !twice(text@, '/') ==> r is None,
        forall|y: int, m: int, d: int|
            #![trigger iso(y, m, d)]
            format@ == "%Y-%m-%d"@ && in_figures(y, m, d) && text@ == iso(y, m, d) ==> ymd(r)
                == ymd_of(y, m, d),
        forall|y: int, m: int, d: int|
            #![trigger dated(y, m, d)]
            format@ == "%Y-%m-%d"@ && in_figures(y, m, d) && text@ == dated(y, m, d) ==> ymd(r)
                == ymd_of(y, m, d),
        forall|y: int, m: int, d: int|
            #![trigger slashed(y, m, d)]
            format@ == "%Y/%m/%d"@ && in_figures(y, m, d) && text@ == slashed(y, m, d) ==> ymd(r)
                == ymd_of(y, m, d),
{
    let d = chrono::NaiveDate::parse_from_str(text, format).ok()?;
    Some(Date { year: d.year(), month: d.month(), day: d.day() })
}

/// `chrono::NaiveDate::from_ymd_opt` gives a day exactly where it exists.
#[verifier::external_body]
pub(crate) fn date_exists(year: i32, month: u32, day: u32) -> (r: bool)
    ensures
        r == valid_ymd(year as int, month as int, day as int),
{
    chrono::NaiveDate::from_ymd_opt(year, month, day).is_some()
}

/// `chrono::Datelike::num_days_from_ce` is the day's number.
#[verifier::external_body]
pub(crate) fn number_of(d: Date) -> (r: i32)
    requires
        d.wf(),
    ensures
        r == d.number(),
{
    chrono::NaiveDate::from_ymd_opt(d.year, d.month, d.day).unwrap().num_days_from_ce()
}

/// Adding a `chrono::Duration` of whole days moves the day's number by them.
#[verifier::external_body]
pub(crate) fn add_days(d: Date, n: i64) -> (r: Date)
    requires
        d.wf(),
        -1000 <= n <= 1000,
        first_day() <= d.number() + n <= last_day(),
    ensures
        r.wf(),
        r.number() == d.number() + n,
{
    let e = chrono::NaiveDate::from_ymd_opt(d.year, d.month, d.day).unwrap() + chrono::Duration::days(n);
    Date { year: e.year(), month: e.month(), day: e.day() }
}

/// `chrono::Datelike::weekday`, counted from Monday as 0: day 1 is a Monday.
#[verifier::external_body]
pub(crate) fn weekday_index(d: Date) -> (r: u32)
    requires
        d.wf(),
    ensures
        r == d.weekday(),
{
    chrono::NaiveDate::from_ymd_opt(d.year, d.month, d.day).unwrap().weekday().num_days_from_monday()
}

/// `chrono::NaiveDate::format` under `%Y-%m-%d`: four digits for the year, signed
/// outside 0 to 9999, and two each for the month and the day.
#[verifier::external_body]
pub(crate) fn date_text(d: Date) -> (r: String)
    requires
        d.wf(),
    ensures
        r@ == d.text(),
{
    chrono::NaiveDate::from_ymd_opt(d.year, d.month, d.day).unwrap().format("%Y-%m-%d").to_string()
}

/// `chrono::Local::now`: some existing day, hour and minute. Which one, the clock
/// and the time zone of the machine decide.
#[verifier::external_body]
pub(crate) fn local_now() -> (r: Moment)
    ensures
        r.wf(),
{
    let n = chrono::Local::now();
    let date = Date { year: n.year(), month: n.month(), day: n.day() };
    Moment { date, hour: n.hour(), minute: n.minute() }
}

/// `chrono::Utc::now` in milliseconds of Unix time. Nothing is stated of it.
#[verifier::external_body]
pub(crate) fn utc_millis() -> (r: i64) {
    chrono::Utc::now().timestamp_millis()
}

/// The day that lies `n` days from `d`, where there is such a day.
pub fn shift(d: Date, n: i64) -> (r: Option<Date>)
    requires
        d.wf(),
        -1000 <= n <= 1000,
    ensures
        is_day(r, existing(d.number() + n)),
{
    let at = number_of(d) as i64 + n;
    let first = number_of(Date { year: MIN_YEAR, month: 1, day: 1 }) as i64;
    let last = number_of(Date { year: MAX_YEAR, month: 12, day: 31 }) as i64;
    if first <= at && at <= last {
        Some(add_days(d, n))
    } else {
        None
    }
}

pub proof fn lemma_year_step(y: int)
    ensures
        year_start(y + 1) == year_start(y) + 365 + (if is_leap(y) { 1int } else { 0 }),
{
    assert(y / 4 == (y - 1) / 4 + (if y % 4 == 0 { 1int } else { 0 }));
    assert(y / 100 == (y - 1) / 100 + (if y % 100 == 0 { 1int } else { 0 }));
    assert(y / 400 == (y - 1) / 400 + (if y % 400 == 0 { 1int } else { 0 }));
    assert(y % 400 == 0 ==> y % 100 == 0);
    assert(y % 100 == 0 ==> y % 4 == 0);
}

proof fn lemma_years(a: int, b: int)
    requires
        a <= b,
    ensures
        year_start(a) + 365 * (b - a) <= year_start(b),
    decreases b - a,
{
    if a < b {
        lemma_years(a, b - 1);
        lemma_year_step(b - 1);
    }
}

/// Where a month begins and ends within its year.
proof fn lemma_months(y: int, m: int)
    requires
        1 <= m <= 12,
    ensures
        0 <= days_before(y, m),
        forall|k: int| 1 <= k < m ==> #[trigger] days_before(y, k) + month_len(y, k) <= days_before(y, m),
        days_before(y, m) + month_len(y, m) <= 365 + (if is_leap(y) { 1int } else { 0 }),
{
    reveal_with_fuel(days_before, 13);
}

/// A day lies in its year.
proof fn lemma_in_year(d: Date)
    requires
        d.wf(),
    ensures
        year_start(d.year as int) < d.number() <= year_start(d.year + 1),
{
    lemma_months(d.year as int, d.month as int);
    lemma_year_step(d.year as int);
}

/// The numbers of two days are ordered as the days are, by year, month and day;
/// so no two days share a number.
pub proof fn law_number_orders_days(a: Date, b: Date)
    requires
        a.wf(),
        b.wf(),
    ensures
        a.number() < b.number() <==> (a.year < b.year || (a.year == b.year && (a.month < b.month || (
        a.month == b.month && a.day < b.day)))),
        a.number() == b.number() ==> a == b,
{
    lemma_in_year(a);
    lemma_in_year(b);
    lemma_months(a.year as int, a.month as int);
    lemma_months(b.year as int, b.month as int);
    if a.year < b.year {
        lemma_years(a.year + 1, b.year as int);
    }
    if b.year < a.year {
        lemma_years(b.year + 1, a.year as int);
    }
}

/// A day is the one that its number names.
pub proof fn lemma_date_at(d: Date)
    requires
        d.wf(),
    ensures
        date_at(d.number()) == d,
{
    let e = date_at(d.number());
    assert(e.wf() && e.number() == d.number());
    law_number_orders_days(d, e);
}

/// The numbers of the days that exist run from the first to the last.
pub proof fn lemma_in_calendar(d: Date)
    requires
        d.wf(),
    ensures
        first_day() <= d.number() <= last_day(),
{
    lemma_in_year(d);
    lemma_years(MIN_YEAR as int, d.year as int);
    lemma_years(d.year + 1, MAX_YEAR + 1);
    lemma_year_step(MAX_YEAR as int);
    reveal_with_fuel(days_before, 13);
}

/// A day of a later year lies almost a year after the first day.
pub proof fn lemma_past_first_year(d: Date)
    requires
        d.wf(),
        d.year > MIN_YEAR,
    ensures
        first_day() + 364 <= d.number(),
{
    lemma_in_year(d);
    lemma_years(MIN_YEAR + 1, d.year as int);
    lemma_year_step(MIN_YEAR as int);
    reveal_with_fuel(days_before, 2);
}

/// Days of one week lie in one year or in two that follow each other.
pub proof fn lemma_same_year(a: Date, b: Date)
    requires
        a.wf(),
        b.wf(),
        a.number() <= b.number() <= a.number() + 7,
    ensures
        a.year <= b.year <= a.year + 1,
{
    lemma_in_year(a);
    lemma_in_year(b);
    if b.year < a.year {
        lemma_years(b.year + 1, a.year as int);
    }
    if a.year + 1 < b.year {
        lemma_years(a.year + 1, b.year as int);
    }
}

} // verus!
