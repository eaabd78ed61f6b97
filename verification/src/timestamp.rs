//! A moment on the civil calendar together with the offset of its clock from
//! UTC, held as plain numbers.

use vstd::prelude::*;

use chrono::{Datelike, Timelike};

use crate::text::decimal_text;

verus! {

/// The first year that a timestamp can lie in.
pub const MIN_YEAR: i32 = -262143;

/// The last year that a timestamp can lie in.
pub const MAX_YEAR: i32 = 262142;

/// The pattern that writes a date as year, month and day.
pub const DATE_PATTERN: &'static str = "%Y-%m-%d";

/// The pattern that writes a date and a time of day, with the fraction of the
/// second where there is one.
pub const MOMENT_PATTERN: &'static str = "%Y-%m-%dT%H:%M:%S%.f";

/// The pattern that writes a date and a time of day for a reader, in
/// brackets and without the fraction of the second.
pub const DISPLAY_PATTERN: &'static str = "(%Y-%m-%d %H:%M:%S)";

/// Whether `year` is a leap year of the proleptic Gregorian calendar.
pub open spec fn is_leap_year(year: int) -> bool {
    year % 4 == 0 && (year % 100 != 0 || year % 400 == 0)
}

/// The number of days of a month.
pub open spec fn days_in_month(year: int, month: int) -> int {
    if month == 2 {
        if is_leap_year(year) {
            29
        } else {
            28
        }
    } else if month == 4 || month == 6 || month == 9 || month == 11 {
        30
    } else {
        31
    }
}

/// Whether the three numbers name a day of the calendar.
pub open spec fn is_calendar_date(year: int, month: int, day: int) -> bool {
    &&& MIN_YEAR <= year <= MAX_YEAR
    &&& 1 <= month <= 12
    &&& 1 <= day <= days_in_month(year, month)
}

/// Whether the numbers name a time of day. A nanosecond count of a thousand
/// million or more stands for a leap second.
pub open spec fn is_clock_time(hour: int, minute: int, second: int, nanosecond: int) -> bool {
    &&& 0 <= hour < 24
    &&& 0 <= minute < 60
    &&& 0 <= second < 60
    &&& 0 <= nanosecond < 2_000_000_000
}

/// Whether a clock can be that many seconds ahead of UTC: less than a day,
/// either way.
pub open spec fn is_utc_offset(seconds: int) -> bool {
    -86_400 < seconds < 86_400
}

/// A day of the calendar, as a value of specifications.
pub struct DateView {
    pub year: int,
    pub month: int,
    pub day: int,
}

/// A timestamp as a value of specifications: the date and time that the clock
/// showed, and how far the clock was ahead of UTC.
pub struct TimestampView {
    pub year: int,
    pub month: int,
    pub day: int,
    pub hour: int,
    pub minute: int,
    pub second: int,
    pub nanosecond: int,
    pub offset_seconds: int,
}

impl DateView {
    /// Whether the numbers name a day of the calendar.
    pub open spec fn is_valid(self) -> bool {
        is_calendar_date(self.year, self.month, self.day)
    }
}

impl TimestampView {
    /// Whether the numbers name a moment: a day of the calendar, a time of
    /// day, and an offset of less than a day.
    pub open spec fn is_valid(self) -> bool {
        &&& is_calendar_date(self.year, self.month, self.day)
        &&& is_clock_time(self.hour, self.minute, self.second, self.nanosecond)
        &&& is_utc_offset(self.offset_seconds)
    }

    /// The day that the clock showed.
    pub open spec fn date(self) -> DateView {
        DateView { year: self.year, month: self.month, day: self.day }
    }
}

/// `count` zeros.
pub open spec fn zeros(count: nat) -> Seq<char> {
    Seq::new(count, |i: int| '0')
}

/// The decimal notation of `value`, with zeros in front up to `width` digits.
pub open spec fn zero_padded(value: nat, width: nat) -> Seq<char> {
    let digits = decimal_text(value);
    if digits.len() >= width {
        digits
    } else {
        zeros((width - digits.len()) as nat) + digits
    }
}

/// A year as it is written: four digits from 0 to 9999, and a sign with at
/// least four digits outside of that.
pub open spec fn year_text(year: int) -> Seq<char> {
    if 0 <= year <= 9999 {
        zero_padded(year as nat, 4)
    } else if year < 0 {
        seq!['-'] + zero_padded((-year) as nat, 4)
    } else {
        seq!['+'] + zero_padded(year as nat, 4)
    }
}

/// A date as it is written: year, month and day with hyphens between.
pub open spec fn date_text(year: int, month: int, day: int) -> Seq<char> {
    year_text(year) + seq!['-'] + zero_padded(month as nat, 2) + seq!['-'] + zero_padded(
        day as nat,
        2,
    )
}

/// The fraction of a second as it is written: nothing for a whole second,
/// else a point and three, six or nine digits, as few as hold it.
pub open spec fn fraction_text(nanosecond: int) -> Seq<char> {
    let nano = nanosecond % 1_000_000_000;
    if nano == 0 {
        Seq::empty()
    } else if nano % 1_000_000 == 0 {
        seq!['.'] + zero_padded((nano / 1_000_000) as nat, 3)
    } else if nano % 1_000 == 0 {
        seq!['.'] + zero_padded((nano / 1_000) as nat, 6)
    } else {
        seq!['.'] + zero_padded(nano as nat, 9)
    }
}

/// A time of day as it is written, to the second. A leap second shows as
/// second 60.
pub open spec fn clock_text(hour: int, minute: int, second: int, nanosecond: int) -> Seq<char> {
    zero_padded(hour as nat, 2) + seq![':'] + zero_padded(minute as nat, 2) + seq![':']
        + zero_padded((second + nanosecond / 1_000_000_000) as nat, 2)
}

/// A date and time of day as they are written, with a `T` between and the
/// fraction of the second at the end.
pub open spec fn moment_text(moment: TimestampView) -> Seq<char> {
    date_text(moment.year, moment.month, moment.day) + seq!['T'] + clock_text(
        moment.hour,
        moment.minute,
        moment.second,
        moment.nanosecond,
    ) + fraction_text(moment.nanosecond)
}

/// A date and time of day as they are shown to a reader: in brackets, with a
/// space between, without the fraction of the second.
pub open spec fn display_text(moment: TimestampView) -> Seq<char> {
    seq!['('] + date_text(moment.year, moment.month, moment.day) + seq![' '] + clock_text(
        moment.hour,
        moment.minute,
        moment.second,
        moment.nanosecond,
    ) + seq![')']
}

/// What `pattern` makes of a date and time of day, for the three patterns
/// that the library writes with.
pub open spec fn formatted_text(moment: TimestampView, pattern: Seq<char>) -> Seq<char> {
    if pattern == DATE_PATTERN@ {
        date_text(moment.year, moment.month, moment.day)
    } else if pattern == MOMENT_PATTERN@ {
        moment_text(moment)
    } else {
        display_text(moment)
    }
}

/// The date and time of day that `text` holds when read by `pattern`, as
/// year, month, day, hour, minute, second and nanosecond; `None` where the
/// text does not follow the pattern or names no real date or time.
pub uninterp spec fn parsed_moment(text: Seq<char>, pattern: Seq<char>) -> Option<
    (int, int, int, int, int, int, int),
>;

/// Builds the date and time with `chrono::NaiveDate::from_ymd_opt`,
/// `NaiveDate::and_hms_opt` and `NaiveDateTime::with_nanosecond`, and writes
/// it with `NaiveDateTime::format`. Claimed of the three patterns: `%Y`
/// writes the year with four digits, and with a sign outside 0 to 9999; `%m`,
/// `%d`, `%H`, `%M` and `%S` write two digits, a leap second as 60; `%.f`
/// writes nothing, or a point and three, six or nine digits; every other
/// character of a pattern is written as it is.
#[verifier::external_body]
fn format_moment(
    year: i32,
    month: u32,
    day: u32,
    hour: u32,
    minute: u32,
    second: u32,
    nanosecond: u32,
    pattern: &str,
) -> (text: String)
    requires
        is_calendar_date(year as int, month as int, day as int),
        is_clock_time(hour as int, minute as int, second as int, nanosecond as int),
        pattern@ == DATE_PATTERN@ || pattern@ == MOMENT_PATTERN@ || pattern@ == DISPLAY_PATTERN@,
    ensures
        text@ == formatted_text(
            TimestampView {
                year: year as int,
                month: month as int,
                day: day as int,
                hour: hour as int,
                minute: minute as int,
                second: second as int,
                nanosecond: nanosecond as int,
                offset_seconds: 0,
            },
            pattern@,
        ),
{
    chrono::NaiveDate::from_ymd_opt(year, month, day)
        .and_then(|date| date.and_hms_opt(hour, minute, second))
        .and_then(|moment| moment.with_nanosecond(nanosecond))
        .map(|moment| moment.format(pattern).to_string())
        .unwrap_or_default()
}

/// Reads `text` with `chrono::NaiveDateTime::parse_from_str` and takes the
/// result apart with the getters of `Datelike` and `Timelike`. Claimed: the
/// answer depends on the two texts alone, and what comes out is a day of the
/// calendar and a time of day.
#[verifier::external_body]
fn parse_moment(text: &str, pattern: &str) -> (fields: Option<(i32, u32, u32, u32, u32, u32, u32)>)
    ensures
        match fields {
            Some(found) => {
                &&& parsed_moment(text@, pattern@) == Some(
                    (
                        found.0 as int,
                        found.1 as int,
                        found.2 as int,
                        found.3 as int,
                        found.4 as int,
                        found.5 as int,
                        found.6 as int,
                    ),
                )
                &&& is_calendar_date(found.0 as int, found.1 as int, found.2 as int)
                &&& is_clock_time(found.3 as int, found.4 as int, found.5 as int, found.6 as int)
            },
            None => parsed_moment(text@, pattern@) is None,
        },
{
    chrono::NaiveDateTime::parse_from_str(text, pattern).ok().map(
        |moment|
            (
                moment.year(),
                moment.month(),
                moment.day(),
                moment.hour(),
                moment.minute(),
                moment.second(),
                moment.nanosecond(),
            ),
    )
}

/// Whether `year` is a leap year.
fn leap_year(year: i32) -> (leap: bool)
    requires
        MIN_YEAR <= year <= MAX_YEAR,
    ensures
        leap == is_leap_year(year as int),
{
    // 262400 is a multiple of 400, so the shift keeps every remainder.
    let shifted: u32 = (year + 262400) as u32;
    shifted % 4 == 0 && (shifted % 100 != 0 || shifted % 400 == 0)
}

/// Whether the three numbers name a day of the calendar.
pub fn calendar_date_exists(year: i32, month: u32, day: u32) -> (exists: bool)
    ensures
        exists == is_calendar_date(year as int, month as int, day as int),
{
    if year < MIN_YEAR || year > MAX_YEAR || month < 1 || month > 12 || day < 1 {
        return false;
    }
    let length: u32 = if month == 2 {
        if leap_year(year) {
            29
        } else {
            28
        }
    } else if month == 4 || month == 6 || month == 9 || month == 11 {
        30
    } else {
        31
    };
    day <= length
}

/// A day of the calendar.
#[derive(Clone, Copy, Debug, PartialEq, Eq)]
pub struct CalendarDate {
    year: i32,
    month: u32,
    day: u32,
}

impl View for CalendarDate {
    type V = DateView;

    closed spec fn view(&self) -> DateView {
        DateView { year: self.year as int, month: self.month as int, day: self.day as int }
    }
}

impl CalendarDate {
    #[verifier::type_invariant]
    spec fn well_formed(self) -> bool {
        self@.is_valid()
    }

    /// The day with these numbers, if the calendar has it.
    pub fn new(year: i32, month: u32, day: u32) -> (date: Option<CalendarDate>)
        ensures
            match date {
                Some(date) => date@ == (DateView {
                    year: year as int,
                    month: month as int,
                    day: day as int,
                }) && date@.is_valid(),
                None => !is_calendar_date(year as int, month as int, day as int),
            },
    {
        if calendar_date_exists(year, month, day) {
            Some(CalendarDate { year, month, day })
        } else {
            None
        }
    }

    /// The year.
    pub fn year(&self) -> (year: i32)
        ensures
            year == self@.year,
            self@.is_valid(),
    {
        proof {
            use_type_invariant(self);
        }
        self.year
    }

    /// The month, from 1.
    pub fn month(&self) -> (month: u32)
        ensures
            month == self@.month,
            self@.is_valid(),
    {
        proof {
            use_type_invariant(self);
        }
        self.month
    }

    /// The day of the month, from 1.
    pub fn day(&self) -> (day: u32)
        ensures
            day == self@.day,
            self@.is_valid(),
    {
        proof {
            use_type_invariant(self);
        }
        self.day
    }

    /// The date as it is written: `2015-10-21`.
    pub fn to_text(&self) -> (text: String)
        ensures
            text@ == date_text(self@.year, self@.month, self@.day),
            self@.is_valid(),
    {
        proof {
            use_type_invariant(self);
        }
        format_moment(self.year, self.month, self.day, 0, 0, 0, 0, DATE_PATTERN)
    }
}

/// A moment as a clock showed it: date, time of day, and how many seconds the
/// clock was ahead of UTC.
#[derive(Clone, Copy, Debug, PartialEq, Eq)]
pub struct Timestamp {
    date: CalendarDate,
    hour: u32,
    minute: u32,
    second: u32,
    nanosecond: u32,
    offset_seconds: i32,
}

impl View for Timestamp {
    type V = TimestampView;

    closed spec fn view(&self) -> TimestampView {
        TimestampView {
            year: self.date@.year,
            month: self.date@.month,
            day: self.date@.day,
            hour: self.hour as int,
            minute: self.minute as int,
            second: self.second as int,
            nanosecond: self.nanosecond as int,
            offset_seconds: self.offset_seconds as int,
        }
    }
}

impl Timestamp {
    #[verifier::type_invariant]
    spec fn well_formed(self) -> bool {
        self@.is_valid()
    }

    /// The moment with these numbers, if there is one: the date has to be a
    /// day of the calendar, the time a time of day, and the offset less than a
    /// day.
    pub fn new(
        year: i32,
        month: u32,
        day: u32,
        hour: u32,
        minute: u32,
        second: u32,
        nanosecond: u32,
        offset_seconds: i32,
    ) -> (moment: Option<Timestamp>)
        ensures
            match moment {
                Some(moment) => moment@ == (TimestampView {
                    year: year as int,
                    month: month as int,
                    day: day as int,
                    hour: hour as int,
                    minute: minute as int,
                    second: second as int,
                    nanosecond: nanosecond as int,
                    offset_seconds: offset_seconds as int,
                }) && moment@.is_valid(),
                None => !(TimestampView {
                    year: year as int,
                    month: month as int,
                    day: day as int,
                    hour: hour as int,
                    minute: minute as int,
                    second: second as int,
                    nanosecond: nanosecond as int,
                    offset_seconds: offset_seconds as int,
                }).is_valid(),
            },
    {
        if hour >= 24 || minute >= 60 || second >= 60 || nanosecond >= 2_000_000_000 {
            return None;
        }
        if offset_seconds <= -86_400 || offset_seconds >= 86_400 {
            return None;
        }
        match CalendarDate::new(year, month, day) {
            Some(date) => Some(Timestamp { date, hour, minute, second, nanosecond, offset_seconds }),
            None => None,
        }
    }

    /// The day that the clock showed.
    pub fn date(&self) -> (date: CalendarDate)
        ensures
            date@ == self@.date(),
            self@.is_valid(),
    {
        proof {
            use_type_invariant(self);
        }
        self.date
    }

    /// The year.
    pub fn year(&self) -> (year: i32)
        ensures
            year == self@.year,
            self@.is_valid(),
    {
        proof {
            use_type_invariant(self);
        }
        self.date.year()
    }

    /// The month, from 1.
    pub fn month(&self) -> (month: u32)
        ensures
            month == self@.month,
            self@.is_valid(),
    {
        proof {
            use_type_invariant(self);
        }
        self.date.month()
    }

    /// The day of the month, from 1.
    pub fn day(&self) -> (day: u32)
        ensures
            day == self@.day,
            self@.is_valid(),
    {
        proof {
            use_type_invariant(self);
        }
        self.date.day()
    }

    /// The hour of the day.
    pub fn hour(&self) -> (hour: u32)
        ensures
            hour == self@.hour,
            self@.is_valid(),
    {
        proof {
            use_type_invariant(self);
        }
        self.hour
    }

    /// The minute of the hour.
    pub fn minute(&self) -> (minute: u32)
        ensures
            minute == self@.minute,
            self@.is_valid(),
    {
        proof {
            use_type_invariant(self);
        }
        self.minute
    }

    /// The second of the minute.
    pub fn second(&self) -> (second: u32)
        ensures
            second == self@.second,
            self@.is_valid(),
    {
        proof {
            use_type_invariant(self);
        }
        self.second
    }

    /// The nanoseconds of the second; a thousand million or more in a leap second.
    pub fn nanosecond(&self) -> (nanosecond: u32)
        ensures
            nanosecond == self@.nanosecond,
            self@.is_valid(),
    {
        proof {
            use_type_invariant(self);
        }
        self.nanosecond
    }

    /// How many seconds the clock was ahead of UTC.
    pub fn offset_seconds(&self) -> (seconds: i32)
        ensures
            seconds == self@.offset_seconds,
            self@.is_valid(),
    {
        proof {
            use_type_invariant(self);
        }
        self.offset_seconds
    }

    /// The date and time of day as the index stores them:
    /// `2015-10-21T07:28:00`, with the fraction of the second where there is
    /// one. The offset is not part of the text.
    pub fn to_moment_text(&self) -> (text: String)
        ensures
            text@ == moment_text(self@),
            self@.is_valid(),
    {
        proof {
            use_type_invariant(self);
            use_type_invariant(&self.date);
            reveal_strlit("%Y-%m-%d");
            reveal_strlit("%Y-%m-%dT%H:%M:%S%.f");
            assert(MOMENT_PATTERN@.len() != DATE_PATTERN@.len());
        }
        format_moment(
            self.date.year(),
            self.date.month(),
            self.date.day(),
            self.hour,
            self.minute,
            self.second,
            self.nanosecond,
            MOMENT_PATTERN,
        )
    }

    /// The date and time of day as they are shown to a reader:
    /// `(2015-10-21 07:28:00)`.
    pub fn to_display_text(&self) -> (text: String)
        ensures
            text@ == display_text(self@),
            self@.is_valid(),
    {
        proof {
            use_type_invariant(self);
            use_type_invariant(&self.date);
            reveal_strlit("%Y-%m-%d");
            reveal_strlit("%Y-%m-%dT%H:%M:%S%.f");
            reveal_strlit("(%Y-%m-%d %H:%M:%S)");
            assert(DISPLAY_PATTERN@.len() != DATE_PATTERN@.len());
            assert(DISPLAY_PATTERN@.len() != MOMENT_PATTERN@.len());
        }
        format_moment(
            self.date.year(),
            self.date.month(),
            self.date.day(),
            self.hour,
            self.minute,
            self.second,
            self.nanosecond,
            DISPLAY_PATTERN,
        )
    }

    /// Reads a date and time of day in the form that `to_moment_text` writes,
    /// and takes `offset_seconds` as the clock's offset.
    pub fn from_moment_text(text: &str, offset_seconds: i32) -> (moment: Option<Timestamp>)
        ensures
            match moment {
                Some(moment) => {
                    &&& is_utc_offset(offset_seconds as int)
                    &&& parsed_moment(text@, MOMENT_PATTERN@) matches Some(found)
                    &&& moment@ == (TimestampView {
                        year: found.0,
                        month: found.1,
                        day: found.2,
                        hour: found.3,
                        minute: found.4,
                        second: found.5,
                        nanosecond: found.6,
                        offset_seconds: offset_seconds as int,
                    })
                },
                None => !is_utc_offset(offset_seconds as int) || parsed_moment(
                    text@,
                    MOMENT_PATTERN@,
                ) is None,
            },
    {
        match parse_moment(text, MOMENT_PATTERN) {
            Some(found) => Timestamp::new(
                found.0,
                found.1,
                found.2,
                found.3,
                found.4,
                found.5,
                found.6,
                offset_seconds,
            ),
            None => None,
        }
    }
}

} // verus!
