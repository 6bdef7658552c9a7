//! What can go wrong when a task is read.

use vstd::prelude::*;
use vstd::std_specs::convert::FromSpecImpl;
use crate::datetime::error::{
    parse_message, parse_message_spec, range_message, range_message_spec, DatetimeError,
};
use crate::text::decimal::IntParseError;

verus! {

/// Why a line was refused as a task.
#[derive(Clone, Copy, Debug, PartialEq, Eq, Structural)]
pub enum TaskConversationError {
    /// A field is well formed but names nothing: no such day or minute, or
    /// a code that is none of the known ones.
    RangeError,
    /// A field of the date or the time is not a number of the width that
    /// its place asks for.
    ParseError(IntParseError),
    /// The line, or its date and time, has fewer fields than it needs.
    TooFewArgumentsError,
}

impl TaskConversationError {
    /// The task error that stands for an error of the date and time:
    /// the same variant with the same cause.
    pub open spec fn of_datetime(e: DatetimeError) -> TaskConversationError {
        match e {
            DatetimeError::RangeError => TaskConversationError::RangeError,
            DatetimeError::ParseError(cause) => TaskConversationError::ParseError(cause),
            DatetimeError::TooFewArgumentsError => TaskConversationError::TooFewArgumentsError,
        }
    }

    /// The sentence shown to a person for this error.
    pub open spec fn message_spec(self) -> Seq<char> {
        match self {
            TaskConversationError::RangeError => range_message_spec("Task"@),
            TaskConversationError::ParseError(cause) => parse_message_spec(cause),
            TaskConversationError::TooFewArgumentsError => "Too few arguments."@,
        }
    }

    /// The sentence shown to a person for this error.
    pub fn message(&self) -> (m: String)
        ensures
            m@ == self.message_spec(),
    {
        match self {
            TaskConversationError::RangeError => range_message("Task"),
            TaskConversationError::ParseError(cause) => parse_message(cause),
            TaskConversationError::TooFewArgumentsError => "Too few arguments.".to_owned(),
        }
    }
}

impl From<DatetimeError> for TaskConversationError {
    fn from(e: DatetimeError) -> (r: TaskConversationError) {
        match e {
            DatetimeError::RangeError => TaskConversationError::RangeError,
            DatetimeError::ParseError(cause) => TaskConversationError::ParseError(cause),
            DatetimeError::TooFewArgumentsError => TaskConversationError::TooFewArgumentsError,
        }
    }
}

impl FromSpecImpl<DatetimeError> for TaskConversationError {
    open spec fn obeys_from_spec() -> bool {
        true
    }

    open spec fn from_spec(e: DatetimeError) -> TaskConversationError {
        TaskConversationError::of_datetime(e)
    }
}

} // verus!
