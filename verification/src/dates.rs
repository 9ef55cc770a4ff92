//! Calendar dates and the release date written in an entry's label.
//!
//! Finding the date in the label is left to the `regex` crate and reading it
//! to the `chrono` crate; the two private functions at the end make those
//! calls and are not proved. What the pattern finds is written out here, but
//! for which characters beyond ASCII count as digits; so is what `chrono`
//! makes of two ASCII digits for the day, the month and the year. What it
//! makes of anything else is only named.

use crate::error::ExtractError;
use crate::text::text_of;
use chrono::Datelike;
use vstd::prelude::*;

verus! {

/// What a date looks like in a label: two digits for the day, for the month
/// and for the year, with hyphens between them.
pub const DATE_PATTERN: &'static str = "(\\d{2}-\\d{2}-\\d{2})";

/// How the digits that `DATE_PATTERN` found are read.
pub const DATE_FORMAT: &'static str = "%d-%m-%y";

/// Whether `c`, a character beyond ASCII, is a decimal digit to the `regex`
/// crate: whether `\d` matches it, which is to say that its general
/// category in Unicode is `Nd`.
pub uninterp spec fn unicode_digit(c: char) -> bool;

/// The date that `chrono::NaiveDate::parse_from_str` reads from `text` under
/// `format`, or `None` where it fails.
pub uninterp spec fn parsed_date(text: Seq<char>, format: Seq<char>) -> Option<Date>;

/// Whether `year` is a leap year of the proleptic Gregorian calendar.
pub open spec fn is_leap_year(year: int) -> bool {
    year % 4 == 0 && (year % 100 != 0 || year % 400 == 0)
}

/// The number of days that `month` has in `year`; 0 where there is no such
/// month.
pub open spec fn days_in_month(year: int, month: int) -> int {
    if month == 2 {
        if is_leap_year(year) {
            29
        } else {
            28
        }
    } else if month == 4 || month == 6 || month == 9 || month == 11 {
        30
    } else if 1 <= month <= 12 {
        31
    } else {
        0
    }
}

/// A day of the proleptic Gregorian calendar, without a time.
#[derive(Clone, Copy, Debug, PartialEq, Eq, Structural)]
pub struct Date {
    year: i32,
    month: u32,
    day: u32,
}

/// The day `day` of the month `month` of the year `year`.
pub closed spec fn date_at(year: int, month: int, day: int) -> Date {
    Date { year: year as i32, month: month as u32, day: day as u32 }
}

/// The day `day` of the month `month` of the year `year`, where the calendar
/// has such a day.
pub open spec fn calendar_date(year: int, month: int, day: int) -> Option<Date> {
    if 1 <= day <= days_in_month(year, month) {
        Some(date_at(year, month, day))
    } else {
        None
    }
}

/// A day of the calendar is the day, of the month, of the year that it was
/// made of.
pub proof fn lemma_date_at(year: int, month: int, day: int)
    requires
        i32::MIN <= year <= i32::MAX,
        1 <= day <= days_in_month(year, month),
    ensures
        date_at(year, month, day).spec_year() == year,
        date_at(year, month, day).spec_month() == month,
        date_at(year, month, day).spec_day() == day,
        date_at(year, month, day).well_formed(),
{
}

/// Whether `c` is one of the ASCII digits `0` to `9`.
pub open spec fn is_ascii_digit(c: char) -> bool {
    '0' <= c <= '9'
}

/// Whether `c` is a decimal digit: of the ASCII characters, `0` to `9` are.
pub open spec fn is_decimal_digit(c: char) -> bool {
    if c <= '\u{7f}' {
        is_ascii_digit(c)
    } else {
        unicode_digit(c)
    }
}

/// Whether two digits, a hyphen, two digits, a hyphen and two digits stand
/// in `text` from the index `at` on.
pub open spec fn date_like_at(text: Seq<char>, at: int) -> bool {
    &&& 0 <= at
    &&& at + 8 <= text.len()
    &&& is_decimal_digit(text[at])
    &&& is_decimal_digit(text[at + 1])
    &&& text[at + 2] == '-'
    &&& is_decimal_digit(text[at + 3])
    &&& is_decimal_digit(text[at + 4])
    &&& text[at + 5] == '-'
    &&& is_decimal_digit(text[at + 6])
    &&& is_decimal_digit(text[at + 7])
}

/// The first eight characters of `text`, at the index `from` or after it,
/// that are two digits, a hyphen, two digits, a hyphen and two digits.
pub open spec fn first_date_like(text: Seq<char>, from: int) -> Option<Seq<char>>
    decreases text.len() - from,
{
    if from < 0 || from + 8 > text.len() {
        None
    } else if date_like_at(text, from) {
        Some(text.subrange(from, from + 8))
    } else {
        first_date_like(text, from + 1)
    }
}

/// Whether `text` is two digits, a hyphen, two digits, a hyphen and two
/// digits, and nothing else.
pub open spec fn is_day_month_year(text: Seq<char>) -> bool {
    &&& text.len() == 8
    &&& is_ascii_digit(text[0])
    &&& is_ascii_digit(text[1])
    &&& text[2] == '-'
    &&& is_ascii_digit(text[3])
    &&& is_ascii_digit(text[4])
    &&& text[5] == '-'
    &&& is_ascii_digit(text[6])
    &&& is_ascii_digit(text[7])
}

/// The number that the two digits of `text` at `at` spell.
pub open spec fn two_digits(text: Seq<char>, at: int) -> int {
    (text[at] as u32 - 48) * 10 + (text[at + 1] as u32 - 48)
}

/// The year that a two-digit year stands for: one of 1970 to 2069.
pub open spec fn full_year(year: int) -> int {
    if year < 70 {
        2000 + year
    } else {
        1900 + year
    }
}

/// The date that `text`, which is of the form `dd-mm-yy`, spells, where the
/// calendar has such a day.
pub open spec fn spelled_date(text: Seq<char>) -> Option<Date> {
    calendar_date(full_year(two_digits(text, 6)), two_digits(text, 3), two_digits(text, 0))
}

/// The date that `chrono` reads from `digits` as day, month and two-digit
/// year.
pub open spec fn read_date(digits: Seq<char>) -> Option<Date> {
    if is_day_month_year(digits) {
        spelled_date(digits)
    } else {
        parsed_date(digits, DATE_FORMAT@)
    }
}

impl Date {
    #[verifier::type_invariant]
    spec fn is_in_the_calendar(&self) -> bool {
        self.well_formed()
    }

    pub closed spec fn spec_year(&self) -> i32 {
        self.year
    }

    pub closed spec fn spec_month(&self) -> u32 {
        self.month
    }

    pub closed spec fn spec_day(&self) -> u32 {
        self.day
    }

    /// The calendar has this day.
    pub open spec fn well_formed(&self) -> bool {
        1 <= self.spec_day() <= days_in_month(self.spec_year() as int, self.spec_month() as int)
    }

    /// The day `day` of the month `month` of the year `year`, where the
    /// calendar has such a day.
    pub fn from_ymd(year: i32, month: u32, day: u32) -> (date: Option<Date>)
        ensures
            date == calendar_date(year as int, month as int, day as int),
            date is Some <==> 1 <= day <= days_in_month(year as int, month as int),
            date matches Some(d) ==> d.spec_year() == year && d.spec_month() == month
                && d.spec_day() == day && d.well_formed(),
    {
        let leap = year % 4 == 0 && (year % 100 != 0 || year % 400 == 0);
        let days: u32 = if month == 2 {
            if leap {
                29
            } else {
                28
            }
        } else if month == 4 || month == 6 || month == 9 || month == 11 {
            30
        } else if 1 <= month && month <= 12 {
            31
        } else {
            0
        };
        if 1 <= day && day <= days {
            Some(Date { year, month, day })
        } else {
            None
        }
    }

    #[verifier::when_used_as_spec(spec_year)]
    pub fn year(&self) -> (year: i32)
        ensures
            year == self.spec_year(),
            self.well_formed(),
    {
        proof {
            use_type_invariant(self);
        }
        self.year
    }

    #[verifier::when_used_as_spec(spec_month)]
    pub fn month(&self) -> (month: u32)
        ensures
            month == self.spec_month(),
            self.well_formed(),
    {
        proof {
            use_type_invariant(self);
        }
        self.month
    }

    #[verifier::when_used_as_spec(spec_day)]
    pub fn day(&self) -> (day: u32)
        ensures
            day == self.spec_day(),
            self.well_formed(),
    {
        proof {
            use_type_invariant(self);
        }
        self.day
    }
}

/// The date that a label holds: the leftmost thing in `text` that looks like
/// a date, read as day, month and two-digit year.
pub open spec fn date_in(text: Seq<char>) -> Result<Date, ExtractError> {
    match first_date_like(text, 0) {
        None => Err(ExtractError::DateNotFound),
        Some(digits) => date_of(digits),
    }
}

/// The date that `digits` spell as day, month and two-digit year.
pub open spec fn date_of(digits: Seq<char>) -> Result<Date, ExtractError> {
    match read_date(digits) {
        None => Err(ExtractError::DateParseError),
        Some(date) => Ok(date),
    }
}

/// What `first_date_like` finds stands in `text` at an index at or after
/// `from`, looks like a date, and is the first such thing from `from` on.
pub proof fn lemma_first_date_like(text: Seq<char>, from: int)
    requires
        0 <= from,
    ensures
        match first_date_like(text, from) {
            Some(found) => exists|at: int|
                {
                    &&& from <= at
                    &&& #[trigger] date_like_at(text, at)
                    &&& found == text.subrange(at, at + 8)
                    &&& date_like_at(found, 0)
                    &&& forall|before: int| from <= before < at ==> !date_like_at(text, before)
                },
            None => forall|at: int| from <= at ==> !date_like_at(text, at),
        },
    decreases text.len() - from,
{
    if from + 8 > text.len() {
    } else if date_like_at(text, from) {
        let found = text.subrange(from, from + 8);
        assert(date_like_at(found, 0));
    } else {
        lemma_first_date_like(text, from + 1);
        match first_date_like(text, from + 1) {
            Some(found) => {
                let at = choose|at: int|
                    {
                        &&& from + 1 <= at
                        &&& #[trigger] date_like_at(text, at)
                        &&& found == text.subrange(at, at + 8)
                        &&& date_like_at(found, 0)
                        &&& forall|before: int|
                            from + 1 <= before < at ==> !date_like_at(text, before)
                    };
                assert(date_like_at(text, at));
            },
            None => {},
        }
    }
}

/// A label that holds nothing that looks like a date gives `DateNotFound`,
/// and no other label does.
pub proof fn lemma_date_not_found(text: Seq<char>)
    ensures
        date_in(text) == Err::<Date, ExtractError>(ExtractError::DateNotFound) <==> forall|at: int|
            !date_like_at(text, at),
{
    lemma_first_date_like(text, 0);
}

/// Reads `digits`, written as `dd-mm-yy`, as a date.
pub fn parse_day_month_year(digits: &str) -> (date: Result<Date, ExtractError>)
    ensures
        date == date_of(digits@),
        date matches Ok(d) ==> d.well_formed(),
        date matches Err(e) ==> e == ExtractError::DateParseError,
{
    match parse_date(digits, DATE_FORMAT) {
        Some(date) => Ok(date),
        None => Err(ExtractError::DateParseError),
    }
}

/// Extracts the date written as `dd-mm-yy` in `text`.
///
/// Fails with `DateNotFound` where `text` holds nothing of that shape, and
/// with `DateParseError` where the leftmost thing of that shape is no day of
/// the calendar.
pub fn extract_date(text: &str) -> (date: Result<Date, ExtractError>)
    ensures
        date == date_in(text@),
        date matches Ok(d) ==> d.well_formed(),
        date matches Err(e) ==> e == ExtractError::DateNotFound || e
            == ExtractError::DateParseError,
{
    match find_capture(DATE_PATTERN, text) {
        None => Err(ExtractError::DateNotFound),
        Some(digits) => parse_day_month_year(digits.as_str()),
    }
}

/// Calls `regex::Regex::new` on `pattern` and `regex::Regex::captures` on
/// `text`, and copies what group 1 matched. A match is the leftmost there
/// is. For the pattern `(\d{2}-\d{2}-\d{2})`, the only one that this is
/// called with and whose group 1 is all of it, that is the first place in
/// `text` where two digits, a hyphen, two digits, a hyphen and two digits
/// stand, `\d` being a decimal digit of any script; so whatever is found
/// there beyond ASCII is such a digit.
#[verifier::external_body]
fn find_capture(pattern: &str, text: &str) -> (found: Option<String>)
    requires
        pattern@ == DATE_PATTERN@,
    ensures
        text_of(found) == first_date_like(text@, 0),
        found matches Some(digits) ==> digits@.len() == 8 && forall|i: int|
            0 <= i < 8 && digits@[i] > '\u{7f}' ==> unicode_digit(#[trigger] digits@[i]),
{
    regex::Regex::new(pattern).ok()?.captures(text)?.get(1).map(|m| String::from(m.as_str()))
}

/// Calls `chrono::NaiveDate::parse_from_str` and copies year, month and day
/// of the date it read. A `NaiveDate` is always a day that the calendar has,
/// with months and days counted from 1. Under the format `%d-%m-%y`, two
/// digits, a hyphen, two digits, a hyphen and two digits are the day, the
/// month and the year modulo 100, of which 70 to 99 stand for 1970 to 1999
/// and 00 to 69 for 2000 to 2069; a day that the calendar does not have is
/// an error.
#[verifier::external_body]
fn parse_date(text: &str, format: &str) -> (date: Option<Date>)
    ensures
        date == parsed_date(text@, format@),
        date matches Some(d) ==> d.well_formed(),
        format@ == DATE_FORMAT@ && is_day_month_year(text@) ==> date == spelled_date(text@),
{
    chrono::NaiveDate::parse_from_str(text, format).ok().map(
        |d| Date { year: d.year(), month: d.month(), day: d.day() },
    )
}

} // verus!
