//! What can go wrong when a date or a time is built or read.

use vstd::prelude::*;
use crate::text::decimal::IntParseError;

verus! {

/// Why a date, a time or a date with a time was refused.
#[derive(Clone, Copy, Debug, PartialEq, Eq, Structural)]
pub enum DatetimeError {
    /// The numbers are well formed but name no day of the calendar or no
    /// minute of the day.
    RangeError,
    /// A field is not a number of the width that its place asks for.
    ParseError(IntParseError),
    /// The text has fewer fields than the value needs.
    TooFewArgumentsError,
}

impl IntParseError {
    /// The sentence that describes this cause.
    pub open spec fn message_spec(self) -> Seq<char> {
        match self {
            IntParseError::Empty => "cannot parse integer from empty string"@,
            IntParseError::InvalidDigit => "invalid digit found in string"@,
            IntParseError::PosOverflow => "number too large to fit in target type"@,
        }
    }

    /// The sentence that describes this cause.
    pub fn message(&self) -> (m: String)
        ensures
            m@ == self.message_spec(),
    {
        match self {
            IntParseError::Empty => "cannot parse integer from empty string".to_owned(),
            IntParseError::InvalidDigit => "invalid digit found in string".to_owned(),
            IntParseError::PosOverflow => "number too large to fit in target type".to_owned(),
        }
    }
}

/// The sentence that says that a value of the kind `what` is out of range.
pub open spec fn range_message_spec(what: Seq<char>) -> Seq<char> {
    "This "@ + what + " has values that are out of range."@
}

/// The sentence that says that a number could not be read, and why.
pub open spec fn parse_message_spec(cause: IntParseError) -> Seq<char> {
    "Error occurred during parse integer: "@ + cause.message_spec()
}

/// The sentence that says that a value of the kind `what` is out of range.
pub fn range_message(what: &str) -> (m: String)
    ensures
        m@ == range_message_spec(what@),
{
    let mut m = "This ".to_owned();
    m.append(what);
    m.append(" has values that are out of range.");
    m
}

/// The sentence that says that a number could not be read, and why.
pub fn parse_message(cause: &IntParseError) -> (m: String)
    ensures
        m@ == parse_message_spec(*cause),
{
    let mut m = "Error occurred during parse integer: ".to_owned();
    m.append(cause.message().as_str());
    m
}

impl DatetimeError {
    /// The sentence shown to a person for this error.
    pub open spec fn message_spec(self) -> Seq<char> {
        match self {
            DatetimeError::RangeError => range_message_spec("Datetime"@),
            DatetimeError::ParseError(cause) => parse_message_spec(cause),
            DatetimeError::TooFewArgumentsError => "Too few arguments."@,
        }
    }

    /// The sentence shown to a person for this error.
    pub fn message(&self) -> (m: String)
        ensures
            m@ == self.message_spec(),
    {
        match self {
            DatetimeError::RangeError => range_message("Datetime"),
            DatetimeError::ParseError(cause) => parse_message(cause),
            DatetimeError::TooFewArgumentsError => "Too few arguments.".to_owned(),
        }
    }
}

} // verus!
