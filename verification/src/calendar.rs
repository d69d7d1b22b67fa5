//! Calendar dates and moments, with the arithmetic and the text forms that the
//! `chrono` crate gives them.
use crate::text;
use chrono::{Datelike, NaiveDate};
use vstd::prelude::*;

verus! {

/// First year that a date can have.
pub const MIN_YEAR: i32 = -262143;

/// Last year that a date can have.
pub const MAX_YEAR: i32 = 262142;

/// What a date is: a year, a month from 1 and a day from 1.
pub struct DateView {
    pub year: int,
    pub month: int,
    pub day: int,
}

/// What a moment is: a date and a time of day.
pub struct MomentView {
    pub date: DateView,
    pub hour: int,
    pub minute: int,
}

/// Whether a year has a 29th of February.
pub open spec fn is_leap(year: int) -> bool {
    year % 4 == 0 && (year % 100 != 0 || year % 400 == 0)
}

/// Number of days of a month.
pub open spec fn month_len(year: int, month: int) -> int {
    if month == 2 {
        if is_leap(year) {
            29
        } else {
            28
        }
    } else if month == 4 || month == 6 || month == 9 || month == 11 {
        30
    } else {
        31
    }
}

/// Number of days of a year in front of a month.
pub open spec fn days_before_month(year: int, month: int) -> int
    decreases month,
{
    if month <= 1 {
        0
    } else {
        days_before_month(year, month - 1) + month_len(year, month - 1)
    }
}

/// Number of a day in the proleptic Gregorian calendar; day 1 is the 1st of
/// January of year 1, a Monday.
pub open spec fn day_number(d: DateView) -> int {
    let y = d.year - 1;
    365 * y + y / 4 - y / 100 + y / 400 + days_before_month(d.year, d.month) + d.day
}

/// Whether a date exists and is in range.
pub open spec fn is_date(d: DateView) -> bool {
    &&& MIN_YEAR <= d.year <= MAX_YEAR
    &&& 1 <= d.month <= 12
    &&& 1 <= d.day <= month_len(d.year, d.month)
}

/// Whether `a` is an earlier date than `b`.
pub open spec fn earlier(a: DateView, b: DateView) -> bool {
    a.year < b.year || (a.year == b.year && (a.month < b.month || (a.month == b.month && a.day
        < b.day)))
}

/// Abbreviated English name of a month.
pub open spec fn month_abbreviation(month: int) -> Seq<char> {
    if month == 1 {
        "Jan"@
    } else if month == 2 {
        "Feb"@
    } else if month == 3 {
        "Mar"@
    } else if month == 4 {
        "Apr"@
    } else if month == 5 {
        "May"@
    } else if month == 6 {
        "Jun"@
    } else if month == 7 {
        "Jul"@
    } else if month == 8 {
        "Aug"@
    } else if month == 9 {
        "Sep"@
    } else if month == 10 {
        "Oct"@
    } else if month == 11 {
        "Nov"@
    } else {
        "Dec"@
    }
}

/// English name of a month.
pub open spec fn month_name(month: int) -> Seq<char> {
    if month == 1 {
        "January"@
    } else if month == 2 {
        "February"@
    } else if month == 3 {
        "March"@
    } else if month == 4 {
        "April"@
    } else if month == 5 {
        "May"@
    } else if month == 6 {
        "June"@
    } else if month == 7 {
        "July"@
    } else if month == 8 {
        "August"@
    } else if month == 9 {
        "September"@
    } else if month == 10 {
        "October"@
    } else if month == 11 {
        "November"@
    } else {
        "December"@
    }
}

/// A year from 0 to 9999 in four digits.
pub open spec fn year_text(year: int) -> Seq<char> {
    text::two_digits((year / 100) as nat) + text::two_digits((year % 100) as nat)
}

/// Text that `chrono` gives a date for a format string.
pub uninterp spec fn date_format(year: int, month: int, day: int, fmt: Seq<char>) -> Seq<char>;

/// Text that `chrono` gives a moment of UTC for a format string.
pub uninterp spec fn moment_format(
    year: int,
    month: int,
    day: int,
    hour: int,
    minute: int,
    fmt: Seq<char>,
) -> Seq<char>;

/// A date that exists.
#[derive(Debug, Clone, Copy)]
pub struct CalendarDate {
    year: i32,
    month: u32,
    day: u32,
}

impl DeepView for CalendarDate {
    type V = DateView;

    closed spec fn deep_view(&self) -> DateView {
        DateView { year: self.year as int, month: self.month as int, day: self.day as int }
    }
}

/// `NaiveDate::from_ymd_opt`: it gives a date exactly for a day that exists in
/// the proleptic Gregorian calendar, in a year of `chrono`'s range.
#[verifier::external_body]
fn date_exists(year: i32, month: u32, day: u32) -> (r: bool)
    ensures
        r == is_date(DateView { year: year as int, month: month as int, day: day as int }),
{
    NaiveDate::from_ymd_opt(year, month, day).is_some()
}

/// `NaiveDate::weekday` and `Weekday::num_days_from_monday`: the position of a
/// date in its week, which starts on Monday.
#[verifier::external_body]
fn weekday_of(year: i32, month: u32, day: u32) -> (r: u32)
    requires
        is_date(DateView { year: year as int, month: month as int, day: day as int }),
    ensures
        r == (day_number(
            DateView { year: year as int, month: month as int, day: day as int },
        ) - 1) % 7,
{
    NaiveDate::from_ymd_opt(year, month, day).unwrap().weekday().num_days_from_monday()
}

/// `NaiveDate::signed_duration_since` and `TimeDelta::num_days`: the number of
/// days from the second date to the first.
#[verifier::external_body]
fn days_between(ya: i32, ma: u32, da: u32, yb: i32, mb: u32, db: u32) -> (r: i64)
    requires
        is_date(DateView { year: ya as int, month: ma as int, day: da as int }),
        is_date(DateView { year: yb as int, month: mb as int, day: db as int }),
    ensures
        r == day_number(DateView { year: ya as int, month: ma as int, day: da as int })
            - day_number(DateView { year: yb as int, month: mb as int, day: db as int }),
{
    let a = NaiveDate::from_ymd_opt(ya, ma, da).unwrap();
    let b = NaiveDate::from_ymd_opt(yb, mb, db).unwrap();
    a.signed_duration_since(b).num_days()
}

/// `NaiveDate::format`: the date written out by a format string, by the
/// specifiers `%b`, `%B`, `%m`, `%d`, `%-d` and `%Y`. Only years from 0 to 9999
/// are written in four digits without a sign, so for others the text is only
/// named.
#[verifier::external_body]
fn format_date(year: i32, month: u32, day: u32, fmt: &str) -> (r: String)
    requires
        is_date(DateView { year: year as int, month: month as int, day: day as int }),
        fmt@ == "%b %-d, %Y"@ || fmt@ == "%B %-d, %Y"@ || fmt@ == "%B %Y"@ || fmt@ == "%b %-d"@
            || fmt@ == "%m-%d"@ || fmt@ == "%Y-%m-%d"@,
    ensures
        r@ == date_format(year as int, month as int, day as int, fmt@),
        fmt@ == "%b %-d, %Y"@ && 0 <= year <= 9999 ==> r@ == month_abbreviation(month as int)
            + " "@ + text::decimal(day as nat) + ", "@ + year_text(year as int),
        fmt@ == "%B %-d, %Y"@ && 0 <= year <= 9999 ==> r@ == month_name(month as int) + " "@
            + text::decimal(day as nat) + ", "@ + year_text(year as int),
        fmt@ == "%B %Y"@ && 0 <= year <= 9999 ==> r@ == month_name(month as int) + " "@
            + year_text(year as int),
        fmt@ == "%b %-d"@ ==> r@ == month_abbreviation(month as int) + " "@ + text::decimal(
            day as nat,
        ),
        fmt@ == "%m-%d"@ ==> r@ == text::two_digits(month as nat) + "-"@ + text::two_digits(
            day as nat,
        ),
        fmt@ == "%Y-%m-%d"@ && 0 <= year <= 9999 ==> r@ == year_text(year as int) + "-"@
            + text::two_digits(month as nat) + "-"@ + text::two_digits(day as nat),
{
    NaiveDate::from_ymd_opt(year, month, day).unwrap().format(fmt).to_string()
}

/// `DateTime::<Utc>::format`: the moment written out by a format string, by the
/// specifiers `%b`, `%B`, `%-d`, `%Y`, `%H` and `%M`. Only years from 0 to 9999
/// are written in four digits without a sign, so for others the text is only
/// named.
#[verifier::external_body]
fn format_moment(year: i32, month: u32, day: u32, hour: u32, minute: u32, fmt: &str) -> (r: String)
    requires
        is_date(DateView { year: year as int, month: month as int, day: day as int }),
        hour < 24,
        minute < 60,
        fmt@ == "%b %-d, %Y"@ || fmt@ == "%B %-d, %Y"@ || fmt@ == "%b %-d, %Y · %H:%M UTC"@
            || fmt@ == "%H:%M UTC"@,
    ensures
        r@ == moment_format(
            year as int,
            month as int,
            day as int,
            hour as int,
            minute as int,
            fmt@,
        ),
        fmt@ == "%b %-d, %Y"@ && 0 <= year <= 9999 ==> r@ == month_abbreviation(month as int)
            + " "@ + text::decimal(day as nat) + ", "@ + year_text(year as int),
        fmt@ == "%B %-d, %Y"@ && 0 <= year <= 9999 ==> r@ == month_name(month as int) + " "@
            + text::decimal(day as nat) + ", "@ + year_text(year as int),
        fmt@ == "%b %-d, %Y · %H:%M UTC"@ && 0 <= year <= 9999 ==> r@ == month_abbreviation(
            month as int,
        ) + " "@ + text::decimal(day as nat) + ", "@ + year_text(year as int) + " · "@
            + text::two_digits(hour as nat) + ":"@ + text::two_digits(minute as nat) + " UTC"@,
        fmt@ == "%H:%M UTC"@ ==> r@ == text::two_digits(hour as nat) + ":"@ + text::two_digits(
            minute as nat,
        ) + " UTC"@,
{
    let day = NaiveDate::from_ymd_opt(year, month, day).unwrap();
    day.and_hms_opt(hour, minute, 0).unwrap().and_utc().format(fmt).to_string()
}

/// "Jan 5, 2026" of a date.
pub open spec fn short_text(d: DateView) -> Seq<char> {
    if 0 <= d.year <= 9999 {
        month_abbreviation(d.month) + " "@ + text::decimal(d.day as nat) + ", "@ + year_text(d.year)
    } else {
        date_format(d.year, d.month, d.day, "%b %-d, %Y"@)
    }
}

/// "January 5, 2026" of a date.
pub open spec fn long_text(d: DateView) -> Seq<char> {
    if 0 <= d.year <= 9999 {
        month_name(d.month) + " "@ + text::decimal(d.day as nat) + ", "@ + year_text(d.year)
    } else {
        date_format(d.year, d.month, d.day, "%B %-d, %Y"@)
    }
}

/// "January 2026" of a date.
pub open spec fn month_year_text(d: DateView) -> Seq<char> {
    if 0 <= d.year <= 9999 {
        month_name(d.month) + " "@ + year_text(d.year)
    } else {
        date_format(d.year, d.month, d.day, "%B %Y"@)
    }
}

/// "Jan 5" of a date.
pub open spec fn month_day_text(d: DateView) -> Seq<char> {
    month_abbreviation(d.month) + " "@ + text::decimal(d.day as nat)
}

/// "01-05" of a date.
pub open spec fn digits_text(d: DateView) -> Seq<char> {
    text::two_digits(d.month as nat) + "-"@ + text::two_digits(d.day as nat)
}

/// "2026-01-05" of a date.
pub open spec fn iso_text(d: DateView) -> Seq<char> {
    if 0 <= d.year <= 9999 {
        year_text(d.year) + "-"@ + text::two_digits(d.month as nat) + "-"@ + text::two_digits(
            d.day as nat,
        )
    } else {
        date_format(d.year, d.month, d.day, "%Y-%m-%d"@)
    }
}

/// "Jan 5, 2026" of a moment.
pub open spec fn moment_short_text(m: MomentView) -> Seq<char> {
    if 0 <= m.date.year <= 9999 {
        short_text(m.date)
    } else {
        moment_format(
            m.date.year,
            m.date.month,
            m.date.day,
            m.hour,
            m.minute,
            "%b %-d, %Y"@,
        )
    }
}

/// "January 5, 2026" of a moment.
pub open spec fn moment_long_text(m: MomentView) -> Seq<char> {
    if 0 <= m.date.year <= 9999 {
        long_text(m.date)
    } else {
        moment_format(
            m.date.year,
            m.date.month,
            m.date.day,
            m.hour,
            m.minute,
            "%B %-d, %Y"@,
        )
    }
}

/// "14:05 UTC" of a moment.
pub open spec fn clock_text(m: MomentView) -> Seq<char> {
    text::two_digits(m.hour as nat) + ":"@ + text::two_digits(m.minute as nat) + " UTC"@
}

/// "Jan 5, 2026 · 14:05 UTC" of a moment.
pub open spec fn moment_full_text(m: MomentView) -> Seq<char> {
    if 0 <= m.date.year <= 9999 {
        short_text(m.date) + " · "@ + text::two_digits(m.hour as nat) + ":"@ + text::two_digits(
            m.minute as nat,
        ) + " UTC"@
    } else {
        moment_format(
            m.date.year,
            m.date.month,
            m.date.day,
            m.hour,
            m.minute,
            "%b %-d, %Y · %H:%M UTC"@,
        )
    }
}

impl CalendarDate {
    #[verifier::type_invariant]
    spec fn exists_in_calendar(&self) -> bool {
        is_date(self.deep_view())
    }

    /// The date with a year, a month from 1 and a day from 1, if it exists.
    pub fn from_ymd_opt(year: i32, month: u32, day: u32) -> (r: Option<CalendarDate>)
        ensures
            ({
                let d = DateView { year: year as int, month: month as int, day: day as int };
                r.deep_view() == if is_date(d) {
                    Some(d)
                } else {
                    None
                }
            }),
    {
        if date_exists(year, month, day) {
            Some(CalendarDate { year, month, day })
        } else {
            None
        }
    }

    /// The year.
    pub fn year(&self) -> (r: i32)
        ensures
            r == self.deep_view().year,
            is_date(self.deep_view()),
    {
        proof {
            use_type_invariant(self);
        }
        self.year
    }

    /// The month, from 1.
    pub fn month(&self) -> (r: u32)
        ensures
            r == self.deep_view().month,
            1 <= r <= 12,
    {
        proof {
            use_type_invariant(self);
        }
        self.month
    }

    /// The day of the month, from 1.
    pub fn day(&self) -> (r: u32)
        ensures
            r == self.deep_view().day,
            1 <= r <= 31,
    {
        proof {
            use_type_invariant(self);
        }
        self.day
    }

    /// A copy.
    pub fn copy(&self) -> (r: CalendarDate)
        ensures
            r.deep_view() == self.deep_view(),
    {
        proof {
            use_type_invariant(self);
        }
        CalendarDate { year: self.year, month: self.month, day: self.day }
    }

    /// Whether both are the same date.
    pub fn same(&self, other: &CalendarDate) -> (r: bool)
        ensures
            r == (self.deep_view() == other.deep_view()),
    {
        self.year == other.year && self.month == other.month && self.day == other.day
    }

    /// Whether this date is earlier than `other`.
    pub fn earlier_than(&self, other: &CalendarDate) -> (r: bool)
        ensures
            r == earlier(self.deep_view(), other.deep_view()),
    {
        self.year < other.year || (self.year == other.year && (self.month < other.month || (
        self.month == other.month && self.day < other.day)))
    }

    /// Position in the week: 0 for Monday, 6 for Sunday.
    pub fn weekday(&self) -> (r: u32)
        ensures
            r == (day_number(self.deep_view()) - 1) % 7,
            r < 7,
    {
        proof {
            use_type_invariant(self);
        }
        weekday_of(self.year, self.month, self.day)
    }

    /// The first day of this date's month.
    pub fn first_of_month(&self) -> (r: CalendarDate)
        ensures
            r.deep_view() == (DateView { day: 1, ..self.deep_view() }),
    {
        proof {
            use_type_invariant(self);
        }
        CalendarDate { year: self.year, month: self.month, day: 1 }
    }

    /// "Jan 5, 2026".
    pub fn short(&self) -> (r: String)
        ensures
            r@ == short_text(self.deep_view()),
    {
        proof {
            use_type_invariant(self);
        }
        format_date(self.year, self.month, self.day, "%b %-d, %Y")
    }

    /// "January 5, 2026".
    pub fn long(&self) -> (r: String)
        ensures
            r@ == long_text(self.deep_view()),
    {
        proof {
            use_type_invariant(self);
        }
        format_date(self.year, self.month, self.day, "%B %-d, %Y")
    }

    /// "January 2026".
    pub fn month_year(&self) -> (r: String)
        ensures
            r@ == month_year_text(self.deep_view()),
    {
        proof {
            use_type_invariant(self);
        }
        format_date(self.year, self.month, self.day, "%B %Y")
    }

    /// "Jan 5".
    pub fn month_day(&self) -> (r: String)
        ensures
            r@ == month_day_text(self.deep_view()),
    {
        proof {
            use_type_invariant(self);
        }
        format_date(self.year, self.month, self.day, "%b %-d")
    }

    /// "01-05".
    pub fn digits(&self) -> (r: String)
        ensures
            r@ == digits_text(self.deep_view()),
    {
        proof {
            use_type_invariant(self);
        }
        format_date(self.year, self.month, self.day, "%m-%d")
    }

    /// "2026-01-05".
    pub fn iso(&self) -> (r: String)
        ensures
            r@ == iso_text(self.deep_view()),
    {
        proof {
            use_type_invariant(self);
        }
        format_date(self.year, self.month, self.day, "%Y-%m-%d")
    }
}

/// A moment of UTC, to the minute.
#[derive(Debug, Clone, Copy)]
pub struct Moment {
    date: CalendarDate,
    hour: u32,
    minute: u32,
}

impl DeepView for Moment {
    type V = MomentView;

    closed spec fn deep_view(&self) -> MomentView {
        MomentView {
            date: self.date.deep_view(),
            hour: self.hour as int,
            minute: self.minute as int,
        }
    }
}

impl Moment {
    #[verifier::type_invariant]
    spec fn in_range(&self) -> bool {
        self.hour < 24 && self.minute < 60
    }

    /// The moment at a time of a date, if there is such a time.
    pub fn at(date: &CalendarDate, hour: u32, minute: u32) -> (r: Option<Moment>)
        ensures
            r.deep_view() == if hour < 24 && minute < 60 {
                Some(
                    MomentView {
                        date: date.deep_view(),
                        hour: hour as int,
                        minute: minute as int,
                    },
                )
            } else {
                None
            },
    {
        if hour < 24 && minute < 60 {
            Some(Moment { date: date.copy(), hour, minute })
        } else {
            None
        }
    }

    /// A copy.
    pub fn copy(&self) -> (r: Moment)
        ensures
            r.deep_view() == self.deep_view(),
    {
        proof {
            use_type_invariant(self);
        }
        Moment { date: self.date.copy(), hour: self.hour, minute: self.minute }
    }

    /// "Jan 5, 2026".
    pub fn short(&self) -> (r: String)
        ensures
            r@ == moment_short_text(self.deep_view()),
    {
        proof {
            use_type_invariant(self);
            use_type_invariant(&self.date);
        }
        let d: &CalendarDate = &self.date;
        format_moment(d.year, d.month, d.day, self.hour, self.minute, "%b %-d, %Y")
    }

    /// "January 5, 2026".
    pub fn long(&self) -> (r: String)
        ensures
            r@ == moment_long_text(self.deep_view()),
    {
        proof {
            use_type_invariant(self);
            use_type_invariant(&self.date);
        }
        let d: &CalendarDate = &self.date;
        format_moment(d.year, d.month, d.day, self.hour, self.minute, "%B %-d, %Y")
    }

    /// "14:05 UTC".
    pub fn clock(&self) -> (r: String)
        ensures
            r@ == clock_text(self.deep_view()),
    {
        proof {
            use_type_invariant(self);
            use_type_invariant(&self.date);
        }
        let d: &CalendarDate = &self.date;
        format_moment(d.year, d.month, d.day, self.hour, self.minute, "%H:%M UTC")
    }

    /// "Jan 5, 2026 · 14:05 UTC".
    pub fn full(&self) -> (r: String)
        ensures
            r@ == moment_full_text(self.deep_view()),
    {
        proof {
            use_type_invariant(self);
            use_type_invariant(&self.date);
        }
        let d: &CalendarDate = &self.date;
        format_moment(d.year, d.month, d.day, self.hour, self.minute, "%b %-d, %Y · %H:%M UTC")
    }
}

// ── Months ───────────────────────────────────────────────────────────────────

/// The first day of the month in front of a date's month; the date itself where
/// that month is out of range.
pub open spec fn month_back(d: DateView) -> DateView {
    let p = if d.month == 1 {
        DateView { year: d.year - 1, month: 12, day: 1 }
    } else {
        DateView { year: d.year, month: d.month - 1, day: 1 }
    };
    if is_date(p) {
        p
    } else {
        d
    }
}

/// The first day of the month behind a date's month; the date itself where that
/// month is out of range.
pub open spec fn month_on(d: DateView) -> DateView {
    let n = if d.month == 12 {
        DateView { year: d.year + 1, month: 1, day: 1 }
    } else {
        DateView { year: d.year, month: d.month + 1, day: 1 }
    };
    if is_date(n) {
        n
    } else {
        d
    }
}

/// The first day of the month in front of `d`'s month.
pub fn previous_month(d: &CalendarDate) -> (r: CalendarDate)
    ensures
        r.deep_view() == month_back(d.deep_view()),
{
    proof {
        use_type_invariant(d);
    }
    let p: Option<CalendarDate> = if d.month == 1 {
        CalendarDate::from_ymd_opt(d.year - 1, 12, 1)
    } else {
        CalendarDate::from_ymd_opt(d.year, d.month - 1, 1)
    };
    match p {
        Some(p) => p,
        None => d.copy(),
    }
}

/// The first day of the month behind `d`'s month.
pub fn next_month(d: &CalendarDate) -> (r: CalendarDate)
    ensures
        r.deep_view() == month_on(d.deep_view()),
{
    proof {
        use_type_invariant(d);
    }
    let n: Option<CalendarDate> = if d.month == 12 {
        CalendarDate::from_ymd_opt(d.year + 1, 1, 1)
    } else {
        CalendarDate::from_ymd_opt(d.year, d.month + 1, 1)
    };
    match n {
        Some(n) => n,
        None => d.copy(),
    }
}

/// From the 1st of one month to the 1st of the next there are as many days as
/// the month has.
pub proof fn lemma_month_step(d: DateView)
    requires
        is_date(d),
        month_on(d) != d,
    ensures
        day_number(month_on(d)) - day_number(DateView { day: 1, ..d }) == month_len(
            d.year,
            d.month,
        ),
{
    let n = month_on(d);
    if d.month == 12 {
        reveal_with_fuel(days_before_month, 13);
        let y = d.year;
        assert(days_before_month(n.year, n.month) == 0);
        assert(days_before_month(y, 12) == 334 + (if is_leap(y) { 1int } else { 0int }));
        assert(y / 4 - (y - 1) / 4 == if y % 4 == 0 { 1int } else { 0int });
        assert(y / 100 - (y - 1) / 100 == if y % 100 == 0 { 1int } else { 0int });
        assert(y / 400 - (y - 1) / 400 == if y % 400 == 0 { 1int } else { 0int });
        assert(y % 100 == 0 ==> y % 4 == 0);
        assert(y % 400 == 0 ==> y % 100 == 0);
    } else {
        assert(days_before_month(d.year, d.month + 1) == days_before_month(d.year, d.month)
            + month_len(d.year, d.month));
    }
}

/// Number of days of the month that `date` is in. In the last month of the
/// calendar's range, which no month follows, it is the number of days in front
/// of `date` instead.
pub fn days_in_month(date: &CalendarDate) -> (r: u32)
    ensures
        ({
            let d = date.deep_view();
            r == if d.year == MAX_YEAR && d.month == 12 {
                d.day - 1
            } else {
                month_len(d.year, d.month)
            }
        }),
        r <= 31,
{
    proof {
        use_type_invariant(date);
    }
    let next: CalendarDate = next_month(date);
    proof {
        use_type_invariant(&next);
        let d = date.deep_view();
        if !(d.year == MAX_YEAR && d.month == 12) {
            lemma_month_step(d);
        }
    }
    days_between(next.year, next.month, next.day, date.year, date.month, 1) as u32
}

/// Going one month on and then one month back gives the first day of the month
/// again, wherever there is a month to go on to.
pub proof fn law_month_round_trip(d: DateView)
    requires
        is_date(d),
        month_on(d) != d,
    ensures
        month_back(month_on(d)) == (DateView { day: 1, ..d }),
{
}

/// The next month is the one behind a month in the year, or January of the next year
/// behind December; the one before is the other way round. Both start on their first.
pub proof fn law_months_follow_each_other(d: DateView)
    requires
        is_date(d),
    ensures
        month_on(d) == d || (month_on(d).day == 1 && month_on(d).year * 12 + month_on(d).month
            == d.year * 12 + d.month + 1),
        month_back(d) == d || (month_back(d).day == 1 && month_back(d).year * 12 + month_back(
            d,
        ).month == d.year * 12 + d.month - 1),
        d.year < MAX_YEAR ==> month_on(d) != d,
        d.year > MIN_YEAR ==> month_back(d) != d,
{
}

/// No day is earlier than itself, of two different days one is earlier, and what is
/// earlier than an earlier day is earlier still.
pub proof fn law_days_are_ordered(a: DateView, b: DateView, c: DateView)
    ensures
        !earlier(a, a),
        a != b ==> earlier(a, b) || earlier(b, a),
        earlier(a, b) ==> !earlier(b, a),
        earlier(a, b) && earlier(b, c) ==> earlier(a, c),
        a.year < b.year ==> earlier(a, b),
        a.year == b.year && a.month < b.month ==> earlier(a, b),
        a.year == b.year && a.month == b.month ==> (earlier(a, b) <==> a.day < b.day),
{
    if a != b && !earlier(a, b) && !earlier(b, a) {
        assert(a =~= b);
    }
}

} // verus!
