//! Calendar dates, times of day, and the two together.
//!
//! A date is written `YYYY-MM-DD`, a time `HH:MM`, and a date with a time
//! as the two joined by a dot. Reading is more lenient than writing: it
//! takes any number that fits its field, with or without leading zeros,
//! and ignores fields beyond those it needs.

use vstd::prelude::*;
use vstd::std_specs::convert::TryFromSpecImpl;
use crate::datetime::error::DatetimeError;
use crate::text::decimal::{
    decimal_digits, is_digit, lemma_decimal_digits, lemma_parse_decimal_digits,
    lemma_parse_zero_padded, lemma_zero_padded, parse_u16, parse_u8, parse_unsigned,
    push_decimal, push_zero_padded, zero_padded,
};
use crate::text::split::{
    lemma_split_first, lemma_split_single, separator_free, split, split_fields,
};
use crate::text::{push_char, to_chars};

pub mod error;

verus! {

/// A day of the Gregorian calendar.
#[derive(Clone, Copy, Debug, PartialEq, Eq, Structural)]
pub struct Date {
    pub year: u16,
    pub month: u8,
    pub day: u8,
}

impl Date {
    /// `year` has a 29th of February: it is divisible by 4, and not by 100
    /// unless by 400.
    pub open spec fn is_leap_year(year: u16) -> bool {
        year % 4 == 0 && (year % 100 != 0 || year % 400 == 0)
    }

    /// The number of days of `month` in `year`; 0 where there is no such month.
    pub open spec fn days_in_month(year: u16, month: u8) -> u8 {
        if month == 1 || month == 3 || month == 5 || month == 7 || month == 8 || month == 10
            || month == 12 {
            31
        } else if month == 4 || month == 6 || month == 9 || month == 11 {
            30
        } else if month == 2 {
            if Self::is_leap_year(year) {
                29
            } else {
                28
            }
        } else {
            0
        }
    }

    /// The date names a day that exists.
    pub open spec fn valid(self) -> bool {
        &&& 1 <= self.month <= 12
        &&& 1 <= self.day <= Self::days_in_month(self.year, self.month)
    }

    /// The date with these fields, if there is such a day.
    pub open spec fn create(year: u16, month: u8, day: u8) -> Result<Date, DatetimeError> {
        let date = Date { year, month, day };
        if date.valid() {
            Ok(date)
        } else {
            Err(DatetimeError::RangeError)
        }
    }

    /// The date with these numbers as its fields: a number that does not
    /// fit its field is out of range, like a day that does not exist.
    pub open spec fn from_numbers(year: int, month: int, day: int) -> Result<Date, DatetimeError> {
        if 0 <= year <= 0xffff && 0 <= month <= 0xff && 0 <= day <= 0xff {
            Self::create(year as u16, month as u8, day as u8)
        } else {
            Err(DatetimeError::RangeError)
        }
    }

    /// What a text stands for: its first three fields between hyphens are
    /// the year, the month and the day.
    pub open spec fn parse_spec(s: Seq<char>) -> Result<Date, DatetimeError> {
        let fields = split(s, '-');
        if fields.len() < 3 {
            Err(DatetimeError::TooFewArgumentsError)
        } else {
            match parse_unsigned(fields[0], 0xffff) {
                Err(cause) => Err(DatetimeError::ParseError(cause)),
                Ok(year) => match parse_unsigned(fields[1], 0xff) {
                    Err(cause) => Err(DatetimeError::ParseError(cause)),
                    Ok(month) => match parse_unsigned(fields[2], 0xff) {
                        Err(cause) => Err(DatetimeError::ParseError(cause)),
                        Ok(day) => Self::create(year as u16, month as u8, day as u8),
                    },
                },
            }
        }
    }

    /// The text of the date: the year as it is, then the month and the day
    /// with two digits each.
    pub open spec fn format_spec(self) -> Seq<char> {
        decimal_digits(self.year as nat) + seq!['-'] + zero_padded(self.month as nat) + seq!['-']
            + zero_padded(self.day as nat)
    }

    /// The date with these fields, or `RangeError` if there is no such day.
    pub fn new(year: u16, month: u8, day: u8) -> (r: Result<Date, DatetimeError>)
        ensures
            r == Self::create(year, month, day),
    {
        let created = Date { year, month, day };
        if !created.check_range() {
            return Err(DatetimeError::RangeError);
        }
        Ok(created)
    }

    /// Whether the month is one of the twelve and the day one of its days.
    pub fn check_range(&self) -> (r: bool)
        ensures
            r == self.valid(),
    {
        1 <= self.month && self.month <= 12 && 1 <= self.day && self.day
            <= self.get_possible_day_max()
    }

    /// Whether the year is a leap year.
    pub fn check_leap_year(&self) -> (r: bool)
        ensures
            r == Self::is_leap_year(self.year),
    {
        self.year % 4 == 0 && (self.year % 100 != 0 || self.year % 400 == 0)
    }

    /// The last day of the date's month, or 0 if the month is none of the twelve.
    pub fn get_possible_day_max(&self) -> (r: u8)
        ensures
            r == Self::days_in_month(self.year, self.month),
    {
        match self.month {
            1 | 3 | 5 | 7 | 8 | 10 | 12 => 31,
            4 | 6 | 9 | 11 => 30,
            2 => if self.check_leap_year() {
                29
            } else {
                28
            },
            _ => 0,
        }
    }

    /// Reads a date from its characters.
    pub fn parse_chars(s: &[char]) -> (r: Result<Date, DatetimeError>)
        ensures
            r == Self::parse_spec(s@),
    {
        let fields = split_fields(s, '-');
        if fields.len() < 3 {
            return Err(DatetimeError::TooFewArgumentsError);
        }
        let year = match parse_u16(fields[0]) {
            Ok(v) => v,
            Err(cause) => {
                return Err(DatetimeError::ParseError(cause));
            },
        };
        let month = match parse_u8(fields[1]) {
            Ok(v) => v,
            Err(cause) => {
                return Err(DatetimeError::ParseError(cause));
            },
        };
        let day = match parse_u8(fields[2]) {
            Ok(v) => v,
            Err(cause) => {
                return Err(DatetimeError::ParseError(cause));
            },
        };
        Date::new(year, month, day)
    }

    /// Reads a date written as `YYYY-M-D`.
    pub fn parse(text: &str) -> (r: Result<Date, DatetimeError>)
        ensures
            r == Self::parse_spec(text@),
    {
        let chars = to_chars(text);
        Date::parse_chars(chars.as_slice())
    }

    /// Appends the text of the date to `out`.
    pub fn push_to(&self, out: &mut String)
        ensures
            final(out)@ == old(out)@ + self.format_spec(),
    {
        push_decimal(out, self.year);
        push_char(out, '-');
        push_zero_padded(out, self.month);
        push_char(out, '-');
        push_zero_padded(out, self.day);
        assert(out@ == old(out)@ + self.format_spec());
    }

    /// The text of the date, `YYYY-MM-DD`, which reads back as the same
    /// value where the value exists.
    pub fn format(&self) -> (text: String)
        ensures
            text@ == self.format_spec(),
            self.valid() ==> Date::parse_spec(text@) == Ok::<Date, DatetimeError>(*self),
    {
        let mut text = String::new();
        self.push_to(&mut text);
        proof {
            if self.valid() {
                self.lemma_parse_format();
            }
        }
        text
    }

    /// The text of a date holds digits and hyphens only.
    pub proof fn lemma_format_separator_free(self, sep: char)
        requires
            !is_digit(sep),
            sep != '-',
        ensures
            separator_free(self.format_spec(), sep),
    {
        lemma_decimal_digits(self.year as nat);
        lemma_zero_padded(self.month as nat);
        lemma_zero_padded(self.day as nat);
    }

    /// Reading the text of a date that exists gives the date back.
    pub proof fn lemma_parse_format(self)
        requires
            self.valid(),
        ensures
            Date::parse_spec(self.format_spec()) == Ok::<Date, DatetimeError>(self),
    {
        let year = decimal_digits(self.year as nat);
        let month = zero_padded(self.month as nat);
        let day = zero_padded(self.day as nat);
        lemma_decimal_digits(self.year as nat);
        lemma_zero_padded(self.month as nat);
        lemma_zero_padded(self.day as nat);
        assert(self.format_spec() == year + seq!['-'] + (month + seq!['-'] + day));
        lemma_split_first(year, '-', month + seq!['-'] + day);
        lemma_split_first(month, '-', day);
        lemma_split_single(day, '-');
        assert(split(self.format_spec(), '-') == seq![year, month, day]);
        lemma_parse_decimal_digits(self.year as nat, 0xffff);
        lemma_parse_zero_padded(self.month as nat, 0xff);
        lemma_parse_zero_padded(self.day as nat, 0xff);
    }
}

impl TryFrom<(i32, i32, i32)> for Date {
    type Error = DatetimeError;

    /// The date with this year, month and day, or `RangeError` if a
    /// number does not fit its field or there is no such day.
    fn try_from(value: (i32, i32, i32)) -> (r: Result<Date, DatetimeError>) {
        if value.0 < 0 || value.0 > 0xffff || value.1 < 0 || value.1 > 0xff || value.2 < 0
            || value.2 > 0xff {
            return Err(DatetimeError::RangeError);
        }
        Date::new(value.0 as u16, value.1 as u8, value.2 as u8)
    }
}

impl TryFromSpecImpl<(i32, i32, i32)> for Date {
    open spec fn obeys_try_from_spec() -> bool {
        true
    }

    open spec fn try_from_spec(value: (i32, i32, i32)) -> Result<Date, DatetimeError> {
        Date::from_numbers(value.0 as int, value.1 as int, value.2 as int)
    }
}

impl<'a> TryFrom<&'a str> for Date {
    type Error = DatetimeError;

    /// Reads a date written as `YYYY-M-D`.
    fn try_from(value: &'a str) -> (r: Result<Date, DatetimeError>) {
        Date::parse(value)
    }
}

impl<'a> TryFromSpecImpl<&'a str> for Date {
    open spec fn obeys_try_from_spec() -> bool {
        true
    }

    open spec fn try_from_spec(value: &'a str) -> Result<Date, DatetimeError> {
        Date::parse_spec(value@)
    }
}

/// A minute of the day.
#[derive(Clone, Copy, Debug, PartialEq, Eq, Structural)]
pub struct Time {
    pub hour: u8,
    pub minute: u8,
}

impl Time {
    /// The time names a minute that exists.
    pub open spec fn valid(self) -> bool {
        self.hour < 24 && self.minute < 60
    }

    /// The time with these fields, if there is such a minute.
    pub open spec fn create(hour: u8, minute: u8) -> Result<Time, DatetimeError> {
        let time = Time { hour, minute };
        if time.valid() {
            Ok(time)
        } else {
            Err(DatetimeError::RangeError)
        }
    }

    /// The time with these numbers as its fields: a number that does not
    /// fit its field is out of range, like a minute that does not exist.
    pub open spec fn from_numbers(hour: int, minute: int) -> Result<Time, DatetimeError> {
        if 0 <= hour <= 0xff && 0 <= minute <= 0xff {
            Self::create(hour as u8, minute as u8)
        } else {
            Err(DatetimeError::RangeError)
        }
    }

    /// What a text stands for: its first two fields between colons are the
    /// hour and the minute.
    pub open spec fn parse_spec(s: Seq<char>) -> Result<Time, DatetimeError> {
        let fields = split(s, ':');
        if fields.len() < 2 {
            Err(DatetimeError::TooFewArgumentsError)
        } else {
            match parse_unsigned(fields[0], 0xff) {
                Err(cause) => Err(DatetimeError::ParseError(cause)),
                Ok(hour) => match parse_unsigned(fields[1], 0xff) {
                    Err(cause) => Err(DatetimeError::ParseError(cause)),
                    Ok(minute) => Self::create(hour as u8, minute as u8),
                },
            }
        }
    }

    /// The text of the time: the hour and the minute with two digits each.
    pub open spec fn format_spec(self) -> Seq<char> {
        zero_padded(self.hour as nat) + seq![':'] + zero_padded(self.minute as nat)
    }

    /// The time with these fields, or `RangeError` if there is no such minute.
    pub fn new(hour: u8, minute: u8) -> (r: Result<Time, DatetimeError>)
        ensures
            r == Self::create(hour, minute),
    {
        let created = Time { hour, minute };
        if !created.check_range() {
            return Err(DatetimeError::RangeError);
        }
        Ok(created)
    }

    /// Whether the hour is below 24 and the minute below 60.
    pub fn check_range(&self) -> (r: bool)
        ensures
            r == self.valid(),
    {
        self.hour < 24 && self.minute < 60
    }

    /// Reads a time from its characters.
    pub fn parse_chars(s: &[char]) -> (r: Result<Time, DatetimeError>)
        ensures
            r == Self::parse_spec(s@),
    {
        let fields = split_fields(s, ':');
        if fields.len() < 2 {
            return Err(DatetimeError::TooFewArgumentsError);
        }
        let hour = match parse_u8(fields[0]) {
            Ok(v) => v,
            Err(cause) => {
                return Err(DatetimeError::ParseError(cause));
            },
        };
        let minute = match parse_u8(fields[1]) {
            Ok(v) => v,
            Err(cause) => {
                return Err(DatetimeError::ParseError(cause));
            },
        };
        Time::new(hour, minute)
    }

    /// Reads a time written as `H:M`.
    pub fn parse(text: &str) -> (r: Result<Time, DatetimeError>)
        ensures
            r == Self::parse_spec(text@),
    {
        let chars = to_chars(text);
        Time::parse_chars(chars.as_slice())
    }

    /// Appends the text of the time to `out`.
    pub fn push_to(&self, out: &mut String)
        ensures
            final(out)@ == old(out)@ + self.format_spec(),
    {
        push_zero_padded(out, self.hour);
        push_char(out, ':');
        push_zero_padded(out, self.minute);
        assert(out@ == old(out)@ + self.format_spec());
    }

    /// The text of the time, `HH:MM`, which reads back as the same
    /// value where the value exists.
    pub fn format(&self) -> (text: String)
        ensures
            text@ == self.format_spec(),
            self.valid() ==> Time::parse_spec(text@) == Ok::<Time, DatetimeError>(*self),
    {
        let mut text = String::new();
        self.push_to(&mut text);
        proof {
            if self.valid() {
                self.lemma_parse_format();
            }
        }
        text
    }

    /// The text of a time holds digits and a colon only.
    pub proof fn lemma_format_separator_free(self, sep: char)
        requires
            !is_digit(sep),
            sep != ':',
        ensures
            separator_free(self.format_spec(), sep),
    {
        lemma_zero_padded(self.hour as nat);
        lemma_zero_padded(self.minute as nat);
    }

    /// Reading the text of a time that exists gives the time back.
    pub proof fn lemma_parse_format(self)
        requires
            self.valid(),
        ensures
            Time::parse_spec(self.format_spec()) == Ok::<Time, DatetimeError>(self),
    {
        let hour = zero_padded(self.hour as nat);
        let minute = zero_padded(self.minute as nat);
        lemma_zero_padded(self.hour as nat);
        lemma_zero_padded(self.minute as nat);
        lemma_split_first(hour, ':', minute);
        lemma_split_single(minute, ':');
        assert(split(self.format_spec(), ':') == seq![hour, minute]);
        lemma_parse_zero_padded(self.hour as nat, 0xff);
        lemma_parse_zero_padded(self.minute as nat, 0xff);
    }
}

impl TryFrom<(i32, i32)> for Time {
    type Error = DatetimeError;

    /// The time with this hour and minute, or `RangeError` if a number
    /// does not fit its field or there is no such minute.
    fn try_from(value: (i32, i32)) -> (r: Result<Time, DatetimeError>) {
        if value.0 < 0 || value.0 > 0xff || value.1 < 0 || value.1 > 0xff {
            return Err(DatetimeError::RangeError);
        }
        Time::new(value.0 as u8, value.1 as u8)
    }
}

impl TryFromSpecImpl<(i32, i32)> for Time {
    open spec fn obeys_try_from_spec() -> bool {
        true
    }

    open spec fn try_from_spec(value: (i32, i32)) -> Result<Time, DatetimeError> {
        Time::from_numbers(value.0 as int, value.1 as int)
    }
}

impl<'a> TryFrom<&'a str> for Time {
    type Error = DatetimeError;

    /// Reads a time written as `H:M`.
    fn try_from(value: &'a str) -> (r: Result<Time, DatetimeError>) {
        Time::parse(value)
    }
}

impl<'a> TryFromSpecImpl<&'a str> for Time {
    open spec fn obeys_try_from_spec() -> bool {
        true
    }

    open spec fn try_from_spec(value: &'a str) -> Result<Time, DatetimeError> {
        Time::parse_spec(value@)
    }
}

/// A minute of a day of the calendar.
#[derive(Clone, Copy, Debug, PartialEq, Eq, Structural)]
pub struct Datetime {
    pub date: Date,
    pub time: Time,
}

impl Datetime {
    /// Both parts name something that exists.
    pub open spec fn valid(self) -> bool {
        self.date.valid() && self.time.valid()
    }

    /// The two parts put together; the date's error comes first.
    pub open spec fn combine(
        date: Result<Date, DatetimeError>,
        time: Result<Time, DatetimeError>,
    ) -> Result<Datetime, DatetimeError> {
        match date {
            Err(e) => Err(e),
            Ok(date) => match time {
                Err(e) => Err(e),
                Ok(time) => Ok(Datetime { date, time }),
            },
        }
    }

    /// What a text stands for: its first two fields between dots are the
    /// date and the time. The time is looked at only if the date is good.
    pub open spec fn parse_spec(s: Seq<char>) -> Result<Datetime, DatetimeError> {
        let fields = split(s, '.');
        if fields.len() < 2 {
            Err(DatetimeError::TooFewArgumentsError)
        } else {
            Self::combine(Date::parse_spec(fields[0]), Time::parse_spec(fields[1]))
        }
    }

    /// The text of the value: the date, a dot, the time.
    pub open spec fn format_spec(self) -> Seq<char> {
        self.date.format_spec() + seq!['.'] + self.time.format_spec()
    }

    /// Reads a date with a time from its characters.
    pub fn parse_chars(s: &[char]) -> (r: Result<Datetime, DatetimeError>)
        ensures
            r == Self::parse_spec(s@),
    {
        let fields = split_fields(s, '.');
        if fields.len() < 2 {
            return Err(DatetimeError::TooFewArgumentsError);
        }
        let date = match Date::parse_chars(fields[0]) {
            Ok(v) => v,
            Err(e) => {
                return Err(e);
            },
        };
        let time = match Time::parse_chars(fields[1]) {
            Ok(v) => v,
            Err(e) => {
                return Err(e);
            },
        };
        Ok(Datetime { date, time })
    }

    /// Reads a date with a time written as `YYYY-M-D.H:M`.
    pub fn parse(text: &str) -> (r: Result<Datetime, DatetimeError>)
        ensures
            r == Self::parse_spec(text@),
    {
        let chars = to_chars(text);
        Datetime::parse_chars(chars.as_slice())
    }

    /// Appends the text of the value to `out`.
    pub fn push_to(&self, out: &mut String)
        ensures
            final(out)@ == old(out)@ + self.format_spec(),
    {
        self.date.push_to(out);
        push_char(out, '.');
        self.time.push_to(out);
        assert(out@ == old(out)@ + self.format_spec());
    }

    /// The text of the value, `YYYY-MM-DD.HH:MM`, which reads back as the same
    /// value where the value exists.
    pub fn format(&self) -> (text: String)
        ensures
            text@ == self.format_spec(),
            self.valid() ==> Datetime::parse_spec(text@) == Ok::<Datetime, DatetimeError>(*self),
    {
        let mut text = String::new();
        self.push_to(&mut text);
        proof {
            if self.valid() {
                self.lemma_parse_format();
            }
        }
        text
    }

    /// The text of a date with a time holds digits, hyphens, a dot and a
    /// colon only.
    pub proof fn lemma_format_separator_free(self, sep: char)
        requires
            !is_digit(sep),
            sep != '-',
            sep != '.',
            sep != ':',
        ensures
            separator_free(self.format_spec(), sep),
    {
        self.date.lemma_format_separator_free(sep);
        self.time.lemma_format_separator_free(sep);
    }

    /// Reading the text of a date with a time that exist gives them back.
    pub proof fn lemma_parse_format(self)
        requires
            self.valid(),
        ensures
            Datetime::parse_spec(self.format_spec()) == Ok::<Datetime, DatetimeError>(self),
    {
        let date = self.date.format_spec();
        let time = self.time.format_spec();
        self.date.lemma_format_separator_free('.');
        self.time.lemma_format_separator_free('.');
        lemma_split_first(date, '.', time);
        lemma_split_single(time, '.');
        assert(split(self.format_spec(), '.') == seq![date, time]);
        self.date.lemma_parse_format();
        self.time.lemma_parse_format();
    }
}

impl TryFrom<((i32, i32, i32), (i32, i32))> for Datetime {
    type Error = DatetimeError;

    /// The date and the time made from the two groups of numbers; the
    /// date's error comes first.
    fn try_from(value: ((i32, i32, i32), (i32, i32))) -> (r: Result<Datetime, DatetimeError>) {
        let date = match Date::try_from(value.0) {
            Ok(v) => v,
            Err(e) => {
                return Err(e);
            },
        };
        let time = match Time::try_from(value.1) {
            Ok(v) => v,
            Err(e) => {
                return Err(e);
            },
        };
        Ok(Datetime { date, time })
    }
}

impl TryFromSpecImpl<((i32, i32, i32), (i32, i32))> for Datetime {
    open spec fn obeys_try_from_spec() -> bool {
        true
    }

    open spec fn try_from_spec(value: ((i32, i32, i32), (i32, i32))) -> Result<
        Datetime,
        DatetimeError,
    > {
        Datetime::combine(
            Date::from_numbers((value.0).0 as int, (value.0).1 as int, (value.0).2 as int),
            Time::from_numbers((value.1).0 as int, (value.1).1 as int),
        )
    }
}

impl<'a> TryFrom<&'a str> for Datetime {
    type Error = DatetimeError;

    /// Reads a date with a time written as `YYYY-M-D.H:M`.
    fn try_from(value: &'a str) -> (r: Result<Datetime, DatetimeError>) {
        Datetime::parse(value)
    }
}

impl<'a> TryFromSpecImpl<&'a str> for Datetime {
    open spec fn obeys_try_from_spec() -> bool {
        true
    }

    open spec fn try_from_spec(value: &'a str) -> Result<Datetime, DatetimeError> {
        Datetime::parse_spec(value@)
    }
}

} // verus!
