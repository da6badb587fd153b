//! Dates and instants of the proleptic Gregorian calendar, and the billing period before an
//! instant.

use chrono::Datelike;
use chrono::Timelike;
use vstd::prelude::*;

use crate::failure::Failure;

verus! {

/// The first year that a date can have.
pub const MIN_YEAR: i32 = -262143;

/// The last year that a date can have.
pub const MAX_YEAR: i32 = 262142;

/// A date by its year, its month from 1 and its day of the month from 1.
pub struct CivilDate {
    pub year: int,
    pub month: int,
    pub day: int,
}

/// An instant in UTC: a date, the second of that day, and the nanosecond of that second. A leap
/// second is the last second of a minute with a nanosecond from 1_000_000_000 on.
pub struct Moment {
    pub date: CivilDate,
    pub second: int,
    pub nano: int,
}

/// Years divisible by 4 are leap years, but of those divisible by 100 only every fourth.
pub open spec fn is_leap_year(year: int) -> bool {
    year % 4 == 0 && (year % 100 != 0 || year % 400 == 0)
}

/// The number of days of a month.
pub open spec fn month_length(year: int, month: int) -> int {
    if month == 2 {
        if is_leap_year(year) {
            29
        } else {
            28
        }
    } else if month == 4 || month == 6 || month == 9 || month == 11 {
        30
    } else {
        31
    }
}

/// A day that the calendar has, in a year that a date can have.
pub open spec fn is_date(d: CivilDate) -> bool {
    &&& MIN_YEAR <= d.year <= MAX_YEAR
    &&& 1 <= d.month <= 12
    &&& 1 <= d.day <= month_length(d.year, d.month)
}

/// An instant on such a day.
pub open spec fn is_moment(m: Moment) -> bool {
    &&& is_date(m.date)
    &&& 0 <= m.second < 86_400
    &&& 0 <= m.nano < 2_000_000_000
    &&& m.nano >= 1_000_000_000 ==> m.second % 60 == 59
}

/// The day before.
pub open spec fn day_before(d: CivilDate) -> CivilDate {
    if d.day > 1 {
        CivilDate { day: d.day - 1, ..d }
    } else if d.month > 1 {
        CivilDate { year: d.year, month: d.month - 1, day: month_length(d.year, d.month - 1) }
    } else {
        CivilDate { year: d.year - 1, month: 12, day: 31 }
    }
}

/// The day after.
pub open spec fn day_after(d: CivilDate) -> CivilDate {
    if d.day < month_length(d.year, d.month) {
        CivilDate { day: d.day + 1, ..d }
    } else if d.month < 12 {
        CivilDate { year: d.year, month: d.month + 1, day: 1 }
    } else {
        CivilDate { year: d.year + 1, month: 1, day: 1 }
    }
}

/// The day that many days later.
pub open spec fn days_after(d: CivilDate, days: nat) -> CivilDate
    decreases days,
{
    if days == 0 {
        d
    } else {
        day_after(days_after(d, (days - 1) as nat))
    }
}

/// The earlier of two dates comes first in the calendar.
pub open spec fn is_before(a: CivilDate, b: CivilDate) -> bool {
    ||| a.year < b.year
    ||| a.year == b.year && a.month < b.month
    ||| a.year == b.year && a.month == b.month && a.day < b.day
}

/// The months from January of year 0 to the month of a date.
pub open spec fn month_index(d: CivilDate) -> int {
    d.year * 12 + d.month - 1
}

/// The date that many months later: the same day of that month, or its last day where it is
/// shorter.
pub open spec fn months_after(d: CivilDate, offset: int) -> CivilDate {
    let index = month_index(d) + offset;
    let year = index / 12;
    let month = index % 12 + 1;
    let length = month_length(year, month);
    CivilDate {
        year,
        month,
        day: if d.day <= length {
            d.day
        } else {
            length
        },
    }
}

/// The decimal digit of a number below 10.
pub open spec fn digit(n: int) -> char {
    (n + '0' as int) as char
}

/// A number in decimal, with leading zeros where it has fewer than `width` digits.
pub open spec fn padded(n: nat, width: nat) -> Seq<char>
    decreases n, width,
{
    if n < 10 && width <= 1 {
        seq![digit(n as int)]
    } else {
        padded(n / 10, if width == 0 { 0 } else { (width - 1) as nat }).push(digit(n as int % 10))
    }
}

/// A year of four digits; outside the years 0 to 9999 with its sign.
pub open spec fn year_text(year: int) -> Seq<char> {
    if 0 <= year <= 9999 {
        padded(year as nat, 4)
    } else if year > 0 {
        seq!['+'] + padded(year as nat, 4)
    } else {
        seq!['-'] + padded((-year) as nat, 4)
    }
}

/// A date as year, month and day with hyphens between.
pub open spec fn date_text(d: CivilDate) -> Seq<char> {
    year_text(d.year) + seq!['-'] + padded(d.month as nat, 2) + seq!['-'] + padded(d.day as nat, 2)
}

/// The fraction of a second: no digits where it is zero, else 3, 6 or 9 of them, as few as hold it.
pub open spec fn fraction_text(nano: int) -> Seq<char> {
    if nano == 0 {
        Seq::empty()
    } else if nano % 1_000_000 == 0 {
        seq!['.'] + padded((nano / 1_000_000) as nat, 3)
    } else if nano % 1_000 == 0 {
        seq!['.'] + padded((nano / 1_000) as nat, 6)
    } else {
        seq!['.'] + padded(nano as nat, 9)
    }
}

/// An instant in the notation of RFC 3339, with the UTC offset written as `+00:00`.
pub open spec fn moment_text(m: Moment) -> Seq<char> {
    let leap: int = if m.nano >= 1_000_000_000 {
        1
    } else {
        0
    };
    date_text(m.date) + seq!['T'] + padded((m.second / 3600) as nat, 2) + seq![':'] + padded(
        (m.second / 60 % 60) as nat,
        2,
    ) + seq![':'] + padded((m.second % 60 + leap) as nat, 2) + fraction_text(
        m.nano - leap * 1_000_000_000,
    ) + seq!['+', '0', '0', ':', '0', '0']
}

/// A date of the calendar.
#[derive(Clone, Copy, Debug, PartialEq, Eq, Structural)]
pub struct Date {
    year: i32,
    month: u32,
    day: u32,
}

impl View for Date {
    type V = CivilDate;

    closed spec fn view(&self) -> CivilDate {
        CivilDate { year: self.year as int, month: self.month as int, day: self.day as int }
    }
}

impl Date {
    #[verifier::type_invariant]
    spec fn well_formed(self) -> bool {
        is_date(self@)
    }

    /// The date of that year, month and day, where the calendar has it.
    pub fn from_ymd_opt(year: i32, month: u32, day: u32) -> (r: Option<Date>)
        ensures
            match r {
                Some(d) => d@ == civil(year, month, day) && is_date(d@),
                None => !is_date(civil(year, month, day)),
            },
    {
        ymd_opt(year, month, day)
    }

    /// The day before, where the calendar has one.
    pub fn pred_opt(&self) -> (r: Option<Date>)
        ensures
            match r {
                Some(d) => d@ == day_before(self@) && is_date(d@),
                None => !is_date(day_before(self@)),
            },
    {
        predecessor(self)
    }

    /// The date that many days later, where the calendar has it.
    pub fn checked_add_days(&self, days: u64) -> (r: Option<Date>)
        ensures
            match r {
                Some(d) => d@ == days_after(self@, days as nat) && is_date(d@),
                None => !is_date(days_after(self@, days as nat)),
            },
    {
        add_days(self, days)
    }

    pub fn year(&self) -> (r: i32)
        ensures
            r == self@.year,
            MIN_YEAR <= r <= MAX_YEAR,
    {
        proof {
            use_type_invariant(self);
        }
        self.year
    }

    pub fn month(&self) -> (r: u32)
        ensures
            r == self@.month,
            1 <= r <= 12,
    {
        proof {
            use_type_invariant(self);
        }
        self.month
    }

    pub fn day(&self) -> (r: u32)
        ensures
            r == self@.day,
            1 <= r <= month_length(self@.year, self@.month),
    {
        proof {
            use_type_invariant(self);
        }
        self.day
    }

    /// The date as year, month and day with hyphens between.
    pub fn to_string(&self) -> (r: String)
        ensures
            r@ == date_text(self@),
            is_date(self@),
    {
        proof {
            use_type_invariant(self);
        }
        date_display(self)
    }
}

/// A date by machine integers.
pub open spec fn civil(year: i32, month: u32, day: u32) -> CivilDate {
    CivilDate { year: year as int, month: month as int, day: day as int }
}

/// `chrono::NaiveDate::from_ymd_opt`: a date for exactly the days that the calendar has in the
/// years from `MIN_YEAR` to `MAX_YEAR`.
#[verifier::external_body]
fn ymd_opt(year: i32, month: u32, day: u32) -> (r: Option<Date>)
    ensures
        match r {
            Some(d) => d@ == civil(year, month, day) && is_date(d@),
            None => !is_date(civil(year, month, day)),
        },
{
    let d = chrono::NaiveDate::from_ymd_opt(year, month, day)?;
    Some(Date { year: d.year(), month: d.month(), day: d.day() })
}

/// `chrono::NaiveDate::pred_opt`: the day before; none before the first day of `MIN_YEAR`.
#[verifier::external_body]
fn predecessor(date: &Date) -> (r: Option<Date>)
    ensures
        match r {
            Some(d) => d@ == day_before(date@) && is_date(d@),
            None => !is_date(day_before(date@)),
        },
{
    let d = chrono::NaiveDate::from_ymd_opt(date.year, date.month, date.day)?.pred_opt()?;
    Some(Date { year: d.year(), month: d.month(), day: d.day() })
}

/// `chrono::NaiveDate::checked_add_days`: the day that many days later; none beyond the last day
/// of `MAX_YEAR`.
#[verifier::external_body]
fn add_days(date: &Date, days: u64) -> (r: Option<Date>)
    ensures
        match r {
            Some(d) => d@ == days_after(date@, days as nat) && is_date(d@),
            None => !is_date(days_after(date@, days as nat)),
        },
{
    let d = chrono::NaiveDate::from_ymd_opt(date.year, date.month, date.day)?.checked_add_days(
        chrono::Days::new(days),
    )?;
    Some(Date { year: d.year(), month: d.month(), day: d.day() })
}

/// The `Display` of `chrono::NaiveDate`: year, month and day with hyphens between, the year with
/// its sign outside the years 0 to 9999.
#[verifier::external_body]
fn date_display(date: &Date) -> (r: String)
    ensures
        r@ == date_text(date@),
{
    chrono::NaiveDate::from_ymd_opt(date.year, date.month, date.day).unwrap().to_string()
}

/// The date in UTC at the moment of the call, by `chrono::Utc::now`, which gives none before 1970.
/// Nothing more is said of which date that is.
#[verifier::external_body]
fn today() -> (r: Date)
    ensures
        is_date(r@),
        r@.year >= 1970,
{
    let d = chrono::Utc::now().date_naive();
    Date { year: d.year(), month: d.month(), day: d.day() }
}

/// The date is an outcome of a call of `today`. That it is a date from 1970 on does not show this:
/// only making the call does.
pub closed spec fn is_told_by_clock(d: CivilDate) -> bool {
    exists|told: Date| #[trigger] call_ensures(today, (), told) && told@ == d
}

/// What the clock told came out of a call of `today`.
proof fn run_dates_come_from_the_clock(d: CivilDate)
    requires
        is_told_by_clock(d),
    ensures
        exists|told: Date| #[trigger] call_ensures(today, (), told) && told@ == d,
        is_date(d),
        d.year >= 1970,
{
}

fn ask<F: Fn() -> Date>(clock: F) -> (r: Date)
    requires
        call_requires(clock, ()),
    ensures
        call_ensures(clock, (), r),
{
    clock()
}

/// The date of the run: the one that the clock tells in this call.
pub fn run_date() -> (r: Date)
    ensures
        is_date(r@),
        r@.year >= 1970,
        is_told_by_clock(r@),
{
    let r = ask(today);
    proof {
        run_dates_come_from_the_clock(r@);
    }
    r
}

/// What `chrono::NaiveDate::parse_from_str` reads of a text in the format `%Y-%m-%d`: the year,
/// the month and the day, or the message of its error.
pub uninterp spec fn date_reading(text: Seq<char>) -> Result<(int, int, int), Seq<char>>;

/// The date that a text reads as.
pub open spec fn civil_of(reading: (int, int, int)) -> CivilDate {
    CivilDate { year: reading.0, month: reading.1, day: reading.2 }
}

/// The outcome of reading a date is the one that the reading names.
pub open spec fn is_date_outcome(
    r: Result<Date, String>,
    reading: Result<(int, int, int), Seq<char>>,
) -> bool {
    match r {
        Ok(d) => reading is Ok && d@ == civil_of(reading->Ok_0) && is_date(d@),
        Err(cause) => reading is Err && cause@ == reading->Err_0,
    }
}

/// A text that writes a date of the years 0 to 9999 reads as that date.
pub open spec fn date_is_read_back(text: Seq<char>, r: Result<Date, String>) -> bool {
    forall|d: CivilDate|
        is_date(d) && 0 <= d.year <= 9999 && text == #[trigger] date_text(d) ==> r is Ok
            && r->Ok_0@ == d
}

/// `chrono::NaiveDate::parse_from_str` with the format `%Y-%m-%d`. It reads back a date of the
/// years 0 to 9999 as the `Display` of that date writes it; nothing more is said of which texts it
/// reads.
#[verifier::external_body]
pub(crate) fn read_date(text: &str) -> (r: Result<Date, String>)
    ensures
        is_date_outcome(r, date_reading(text@)),
        date_is_read_back(text@, r),
{
    let d = chrono::NaiveDate::parse_from_str(text, "%Y-%m-%d").map_err(|e| e.to_string())?;
    Ok(Date { year: d.year(), month: d.month(), day: d.day() })
}

/// An instant in UTC.
#[derive(Clone, Copy, Debug, PartialEq, Eq, Structural)]
pub struct Instant {
    date: Date,
    second: u32,
    nano: u32,
}

impl View for Instant {
    type V = Moment;

    closed spec fn view(&self) -> Moment {
        Moment { date: self.date@, second: self.second as int, nano: self.nano as int }
    }
}

impl Instant {
    #[verifier::type_invariant]
    spec fn well_formed(self) -> bool {
        is_moment(self@)
    }

    /// The instant at that second and nanosecond of a day, where the day has it.
    pub fn new(date: Date, second: u32, nano: u32) -> (r: Option<Instant>)
        ensures
            match r {
                Some(i) => i@ == (Moment {
                    date: date@,
                    second: second as int,
                    nano: nano as int,
                }) && is_moment(i@),
                None => !is_moment(
                    Moment { date: date@, second: second as int, nano: nano as int },
                ),
            },
    {
        proof {
            use_type_invariant(&date);
        }
        if second < 86_400 && nano < 2_000_000_000 && (nano < 1_000_000_000 || second % 60 == 59) {
            Some(Instant { date, second, nano })
        } else {
            None
        }
    }

    /// The day of the instant.
    pub fn date(&self) -> (r: Date)
        ensures
            r@ == self@.date,
    {
        self.date
    }

    /// The instant in the notation of RFC 3339.
    pub fn to_rfc3339(&self) -> (r: String)
        ensures
            r@ == moment_text(self@),
    {
        rfc3339_display(self)
    }
}

/// `chrono::DateTime::<Utc>::to_rfc3339`: date, `T`, hours, minutes and seconds, the fraction of
/// the second in as few groups of three digits as hold it, and `+00:00`; a leap second as `:60`.
#[verifier::external_body]
fn rfc3339_display(instant: &Instant) -> (r: String)
    ensures
        r@ == moment_text(instant@),
{
    let d = instant.date;
    let date = chrono::NaiveDate::from_ymd_opt(d.year, d.month, d.day).unwrap();
    let time = chrono::NaiveTime::from_num_seconds_from_midnight_opt(instant.second, instant.nano);
    let naive = date.and_time(time.unwrap());
    chrono::DateTime::<chrono::Utc>::from_naive_utc_and_offset(naive, chrono::Utc).to_rfc3339()
}

/// What `chrono::DateTime::parse_from_rfc3339` reads of a text, in UTC: the year, the month, the
/// day, the second of the day and the nanosecond, or the message of its error.
pub uninterp spec fn rfc3339_reading(text: Seq<char>) -> Result<
    (int, int, int, int, int),
    Seq<char>,
>;

/// The instant that a text reads as.
pub open spec fn moment_of(reading: (int, int, int, int, int)) -> Moment {
    Moment {
        date: CivilDate { year: reading.0, month: reading.1, day: reading.2 },
        second: reading.3,
        nano: reading.4,
    }
}

/// The outcome of reading an instant is the one that the reading names.
pub open spec fn is_instant_outcome(
    r: Result<Instant, String>,
    reading: Result<(int, int, int, int, int), Seq<char>>,
) -> bool {
    match r {
        Ok(i) => reading is Ok && i@ == moment_of(reading->Ok_0) && is_moment(i@),
        Err(cause) => reading is Err && cause@ == reading->Err_0,
    }
}

/// A text that writes an instant of the years 0 to 9999 reads as that instant.
pub open spec fn instant_is_read_back(text: Seq<char>, r: Result<Instant, String>) -> bool {
    forall|m: Moment|
        is_moment(m) && 0 <= m.date.year <= 9999 && text == #[trigger] moment_text(m) ==> r is Ok
            && r->Ok_0@ == m
}

/// A day of the years 0 to 9999, the day before them, or the day after them.
pub open spec fn is_in_reach(d: CivilDate) -> bool {
    ||| 0 <= d.year <= 9999
    ||| d == CivilDate { year: -1, month: 12, day: 31 }
    ||| d == CivilDate { year: 10_000, month: 1, day: 1 }
}

/// `chrono::DateTime::parse_from_rfc3339`, taken to UTC. A text has four digits for the year and
/// an offset under a day, so the day in UTC lies in the years 0 to 9999 or next to them. It reads
/// back an instant of the years 0 to 9999 as `to_rfc3339` writes it; nothing more is said of which
/// texts it reads.
#[verifier::external_body]
pub(crate) fn read_rfc3339(text: &str) -> (r: Result<Instant, String>)
    ensures
        is_instant_outcome(r, rfc3339_reading(text@)),
        r is Ok ==> is_in_reach(r->Ok_0@.date),
        instant_is_read_back(text@, r),
{
    let parsed = chrono::DateTime::parse_from_rfc3339(text).map_err(|e| e.to_string())?;
    let d = parsed.with_timezone(&chrono::Utc).date_naive();
    let t = parsed.naive_utc().time();
    Ok(Instant {
        date: Date { year: d.year(), month: d.month(), day: d.day() },
        second: t.num_seconds_from_midnight(),
        nano: t.nanosecond(),
    })
}

/// The month has a next month in the years that a date can have.
pub open spec fn has_next_month(year: int, month: int) -> bool {
    &&& MIN_YEAR <= year <= MAX_YEAR
    &&& 1 <= month <= 12
    &&& month == 12 ==> year < MAX_YEAR
}

/// The number of days of a month: the day of the month on the eve of the next month.
pub fn days_in_month(year: i32, month: u32) -> (r: u32)
    requires
        has_next_month(year as int, month as int),
    ensures
        r == month_length(year as int, month as int),
{
    let (next_year, next_month): (i32, u32) = if month == 12 {
        (year + 1, 1)
    } else {
        (year, month + 1)
    };
    let first = Date::from_ymd_opt(next_year, next_month, 1).unwrap();
    let eve = first.pred_opt().unwrap();
    eve.day()
}

/// The instant that many months later, at the same time of the day: on the same day of that
/// month, or on its last day where it is shorter.
pub fn shift_months(instant: Instant, offset: i32) -> (r: Result<Instant, Failure>)
    requires
        i32::MIN <= month_index(instant@.date) + offset <= i32::MAX,
        has_next_month(
            months_after(instant@.date, offset as int).year,
            months_after(instant@.date, offset as int).month,
        ),
    ensures
        r is Ok,
        r->Ok_0@ == (Moment { date: months_after(instant@.date, offset as int), ..instant@ }),
{
    proof {
        use_type_invariant(&instant);
    }
    let date = instant.date;
    let index: i32 = date.year() * 12 + (date.month() as i32 - 1) + offset;
    let year: i32 = index.checked_div_euclid(12).unwrap();
    let month: u32 = (index.checked_rem_euclid(12).unwrap() + 1) as u32;
    let length: u32 = days_in_month(year, month);
    let day: u32 = if date.day() <= length {
        date.day()
    } else {
        length
    };
    match Date::from_ymd_opt(year, month, day) {
        Some(shifted) => Ok(
            Instant { date: shifted, second: instant.second, nano: instant.nano },
        ),
        None => Err(Failure::new("failed to calculate previous billing-period start".to_owned())),
    }
}

/// A completed billing period: its two boundaries as instants in the notation of RFC 3339, and
/// its first and its last day.
#[derive(Debug)]
pub struct BillingPeriod {
    pub start: String,
    pub end: String,
    pub from: Date,
    pub to: Date,
}

/// The period is the month that ends with the instant `boundary`.
pub open spec fn is_period_before(period: BillingPeriod, boundary: Moment) -> bool {
    &&& period.start@ == moment_text(Moment { date: months_after(boundary.date, -1), ..boundary })
    &&& period.end@ == moment_text(boundary)
    &&& period.from@ == months_after(boundary.date, -1)
    &&& period.to@ == day_before(boundary.date)
}

/// The report of a start that does not read as an instant.
pub open spec fn invalid_start(cause: Seq<char>) -> Seq<Seq<char>> {
    seq!["Railway returned an invalid billing-period start"@, cause]
}

/// The completed billing period that ends with the instant `boundary`.
pub fn billing_period_before(boundary: Instant) -> (r: Result<BillingPeriod, Failure>)
    requires
        boundary@.date.year > MIN_YEAR || boundary@.date.month > 1,
    ensures
        r is Ok,
        is_period_before(r->Ok_0, boundary@),
{
    proof {
        use_type_invariant(&boundary);
    }
    let previous = match shift_months(boundary, -1) {
        Ok(instant) => instant,
        Err(failure) => {
            return Err(failure);
        },
    };
    match boundary.date().pred_opt() {
        Some(to) => Ok(
            BillingPeriod {
                start: previous.to_rfc3339(),
                end: boundary.to_rfc3339(),
                from: previous.date(),
                to,
            },
        ),
        None => Err(Failure::new("failed to calculate previous billing-period end".to_owned())),
    }
}

/// The completed billing period before the one whose start reads so.
pub fn billing_period_by_reading(reading: Result<Instant, String>) -> (r: Result<
    BillingPeriod,
    Failure,
>)
    requires
        reading matches Ok(boundary) ==> boundary@.date.year > MIN_YEAR || boundary@.date.month > 1,
    ensures
        match (r, reading) {
            (Ok(period), Ok(boundary)) => is_period_before(period, boundary@),
            (Err(failure), Err(cause)) => failure@ == invalid_start(cause@),
            _ => false,
        },
{
    match reading {
        Ok(boundary) => billing_period_before(boundary),
        Err(cause) => Err(
            Failure::caused("Railway returned an invalid billing-period start".to_owned(), cause),
        ),
    }
}

/// The text writes that instant, of the years 0 to 9999, in the notation of RFC 3339.
pub open spec fn writes_moment(s: Seq<char>, m: Moment) -> bool {
    is_moment(m) && 0 <= m.date.year <= 9999 && s == moment_text(m)
}

/// The outcome of asking for the completed billing period before the one that starts at
/// `current_start`: the month that ends with the instant that the text reads as.
pub open spec fn is_previous_period(
    current_start: Seq<char>,
    r: Result<BillingPeriod, Failure>,
) -> bool {
    &&& match (r, rfc3339_reading(current_start)) {
        (Ok(period), Ok(reading)) => {
            let boundary = moment_of(reading);
            is_period_before(period, boundary) && is_moment(boundary) && is_in_reach(boundary.date)
        },
        (Err(failure), Err(cause)) => failure@ == invalid_start(cause),
        _ => false,
    }
    &&& forall|boundary: Moment| #[trigger]
        writes_moment(current_start, boundary) ==> r is Ok && is_period_before(
            r->Ok_0,
            boundary,
        ) && moment_of(rfc3339_reading(current_start)->Ok_0) == boundary
}

/// The completed billing period before the one that starts at `current_start`.
pub fn previous_billing_period(current_start: &str) -> (r: Result<BillingPeriod, Failure>)
    ensures
        is_previous_period(current_start@, r),
{
    let reading = read_rfc3339(current_start);
    billing_period_by_reading(reading)
}

/// Later days come later in the calendar.
pub proof fn days_pass(d: CivilDate, days: nat)
    requires
        is_date(d),
    ensures
        ({
            let later = days_after(d, days);
            &&& 1 <= later.month <= 12
            &&& 1 <= later.day <= month_length(later.year, later.month)
            &&& if days == 0 {
                later == d
            } else {
                is_before(d, later)
            }
        }),
    decreases days,
{
    if days > 0 {
        days_pass(d, (days - 1) as nat);
    }
}

/// The day after the day before a day is that day.
pub proof fn day_before_is_undone(d: CivilDate)
    requires
        is_date(d),
    ensures
        day_after(day_before(d)) == d,
        is_before(day_before(d), d),
{
}

/// A billing period begins in the month before its boundary, is not empty, and its last day is
/// followed by the day of the boundary.
pub proof fn period_leads_to_its_boundary(period: BillingPeriod, boundary: Moment)
    requires
        is_moment(boundary),
        is_period_before(period, boundary),
    ensures
        month_index(period.from@) == month_index(boundary.date) - 1,
        period.from@ == period.to@ || is_before(period.from@, period.to@),
        day_after(period.to@) == boundary.date,
{
    day_before_is_undone(boundary.date);
}

/// Two billing periods of which the one starts at the other's boundary meet: neither a day nor an
/// instant lies between them, and none in both.
pub proof fn consecutive_periods_meet(
    earlier: BillingPeriod,
    later: BillingPeriod,
    boundary: Moment,
)
    requires
        is_moment(boundary),
        is_period_before(later, boundary),
        is_moment(Moment { date: later.from@, ..boundary }),
        is_period_before(earlier, Moment { date: later.from@, ..boundary }),
    ensures
        earlier.end@ == later.start@,
        day_after(earlier.to@) == later.from@,
        is_before(earlier.to@, later.from@),
{
    day_before_is_undone(later.from@);
}

proof fn lemma_days_within_month(d: CivilDate, days: nat)
    requires
        d.day + days <= month_length(d.year, d.month),
    ensures
        days_after(d, days) == (CivilDate { day: d.day + days, ..d }),
    decreases days,
{
    if days > 0 {
        lemma_days_within_month(d, (days - 1) as nat);
    }
}

proof fn lemma_days_add(d: CivilDate, a: nat, b: nat)
    ensures
        days_after(d, a + b) == days_after(days_after(d, a), b),
    decreases b,
{
    if b > 0 {
        lemma_days_add(d, a, (b - 1) as nat);
        assert((a + b - 1) as nat == a + (b - 1) as nat);
    }
}

/// The days from a day of a month to a day of the next month.
pub open spec fn days_to_next_month(from: CivilDate, boundary: CivilDate) -> int {
    month_length(from.year, from.month) - from.day + boundary.day
}

/// A billing period has 28 to 31 days, its first and its last day counted.
pub proof fn period_is_a_month_long(period: BillingPeriod, boundary: Moment)
    requires
        is_moment(boundary),
        is_period_before(period, boundary),
    ensures
        ({
            let days = days_to_next_month(period.from@, boundary.date);
            &&& 28 <= days <= 31
            &&& days_after(period.from@, (days - 1) as nat) == period.to@
            &&& days_after(period.from@, days as nat) == boundary.date
        }),
{
    let from = period.from@;
    let length = month_length(from.year, from.month);
    let left = (length - from.day) as nat;
    let days = days_to_next_month(from, boundary.date);
    let last = CivilDate { day: length, ..from };
    let first = CivilDate { day: 1, ..boundary.date };
    lemma_days_within_month(from, left);
    assert(day_after(last) == first);
    assert(days_after(from, left + 1) == first);
    lemma_days_within_month(first, (boundary.date.day - 1) as nat);
    lemma_days_add(from, left + 1, (boundary.date.day - 1) as nat);
    assert(left + 1 + (boundary.date.day - 1) as nat == days);
    let eve = days_after(from, (days - 1) as nat);
    assert(eve == period.to@) by {
        if boundary.date.day > 1 {
            lemma_days_within_month(first, (boundary.date.day - 2) as nat);
            lemma_days_add(from, left + 1, (boundary.date.day - 2) as nat);
            assert(left + 1 + (boundary.date.day - 2) as nat == days - 1);
        } else {
            assert(left == days - 1);
        }
    }
}

/// Asking for the period before a period's start, as that is written, gives the one that ends
/// there: such periods follow each other without a gap and without an overlap. The start must lie
/// in the years that are written without a sign.
pub proof fn previous_periods_tile(
    current_start: Seq<char>,
    later: Result<BillingPeriod, Failure>,
    earlier: Result<BillingPeriod, Failure>,
)
    requires
        is_previous_period(current_start, later),
        later is Ok,
        later->Ok_0.from@.year >= 0,
        is_previous_period(later->Ok_0.start@, earlier),
    ensures
        earlier is Ok,
        earlier->Ok_0.end@ == later->Ok_0.start@,
        day_after(earlier->Ok_0.to@) == later->Ok_0.from@,
        is_before(earlier->Ok_0.to@, later->Ok_0.from@),
        day_after(later->Ok_0.to@) == moment_of(rfc3339_reading(current_start)->Ok_0).date,
{
    let boundary = moment_of(rfc3339_reading(current_start)->Ok_0);
    let start = Moment { date: later->Ok_0.from@, ..boundary };
    assert(writes_moment(later->Ok_0.start@, start));
    period_leads_to_its_boundary(later->Ok_0, boundary);
    consecutive_periods_meet(earlier->Ok_0, later->Ok_0, boundary);
}

/// A day that every month has is reached again by going a month back and a month on.
pub proof fn month_shift_is_undone(d: CivilDate)
    requires
        is_date(d),
        d.day <= 28,
    ensures
        months_after(months_after(d, -1), 1) == d,
{
}

proof fn lemma_digit(n: int)
    requires
        0 <= n < 10,
    ensures
        '0' <= digit(n) <= '9',
{
}

proof fn lemma_padded(n: nat, width: nat)
    ensures
        padded(n, width).len() > 0,
        forall|i: int|
            0 <= i < padded(n, width).len() ==> '0' <= #[trigger] padded(n, width)[i] <= '9',
    decreases n, width,
{
    lemma_digit(n as int % 10);
    if n < 10 && width <= 1 {
        lemma_digit(n as int);
    } else {
        lemma_padded(n / 10, if width == 0 { 0 } else { (width - 1) as nat });
    }
}

/// A date is written in digits, hyphens and plus signs, and ends with a digit.
pub proof fn date_is_plain_text(d: CivilDate)
    requires
        is_date(d),
    ensures
        date_text(d).len() > 0,
        forall|i: int| 0 <= i < date_text(d).len() ==> {
            let c = #[trigger] date_text(d)[i];
            '0' <= c <= '9' || c == '-' || c == '+'
        },
        '0' <= date_text(d).last() <= '9',
{
    lemma_padded((if d.year < 0 { -d.year } else { d.year }) as nat, 4);
    lemma_padded(d.month as nat, 2);
    lemma_padded(d.day as nat, 2);
}

} // verus!
