//! Tasks and their one-line text form.
//!
//! A task is written as four fields with one space between them: the date
//! and time, the code of its proximity, the code of its status, and its
//! content. Reading takes the first four fields of a line and ignores the
//! rest, so of a content with spaces only the first word is read back.

use vstd::prelude::*;
use vstd::std_specs::cmp::PartialEqSpecImpl;
use vstd::std_specs::convert::TryFromSpecImpl;
use crate::datetime::Datetime;
use crate::task::error::TaskConversationError;
use crate::text::split::{
    lemma_split_first, lemma_split_single, separator_free, split, split_fields,
};
use crate::text::{push_char, to_chars, to_string};

pub mod error;

verus! {

/// How close a task is: a plain tag, with no order among its values.
#[derive(Clone, Copy, Debug, PartialEq, Eq, Structural)]
pub enum TaskProximity {
    VeryHigh,
    High,
    Medium,
    Low,
    VeryLow,
}

impl TaskProximity {
    /// The code that stands for the value in text.
    pub open spec fn code(self) -> Seq<char> {
        match self {
            TaskProximity::VeryHigh => seq!['V', 'H'],
            TaskProximity::High => seq!['H'],
            TaskProximity::Medium => seq!['M'],
            TaskProximity::Low => seq!['L'],
            TaskProximity::VeryLow => seq!['V', 'L'],
        }
    }

    /// The value whose code `s` is, or `RangeError` if it is no code.
    pub open spec fn parse_spec(s: Seq<char>) -> Result<TaskProximity, TaskConversationError> {
        if s == TaskProximity::VeryHigh.code() {
            Ok(TaskProximity::VeryHigh)
        } else if s == TaskProximity::High.code() {
            Ok(TaskProximity::High)
        } else if s == TaskProximity::Medium.code() {
            Ok(TaskProximity::Medium)
        } else if s == TaskProximity::Low.code() {
            Ok(TaskProximity::Low)
        } else if s == TaskProximity::VeryLow.code() {
            Ok(TaskProximity::VeryLow)
        } else {
            Err(TaskConversationError::RangeError)
        }
    }

    /// Reads a proximity from the characters of its code.
    pub fn parse_chars(s: &[char]) -> (r: Result<TaskProximity, TaskConversationError>)
        ensures
            r == Self::parse_spec(s@),
    {
        let found = if s.len() == 1 && s[0] == 'H' {
            Some(TaskProximity::High)
        } else if s.len() == 1 && s[0] == 'M' {
            Some(TaskProximity::Medium)
        } else if s.len() == 1 && s[0] == 'L' {
            Some(TaskProximity::Low)
        } else if s.len() == 2 && s[0] == 'V' && s[1] == 'H' {
            Some(TaskProximity::VeryHigh)
        } else if s.len() == 2 && s[0] == 'V' && s[1] == 'L' {
            Some(TaskProximity::VeryLow)
        } else {
            None
        };
        match found {
            Some(p) => {
                assert(s@ =~= p.code());
                Ok(p)
            },
            None => Err(TaskConversationError::RangeError),
        }
    }

    /// Reads a proximity from its code: `VH`, `H`, `M`, `L` or `VL`.
    pub fn parse(text: &str) -> (r: Result<TaskProximity, TaskConversationError>)
        ensures
            r == Self::parse_spec(text@),
    {
        let chars = to_chars(text);
        TaskProximity::parse_chars(chars.as_slice())
    }

    /// Appends the code of the value to `out`.
    pub fn push_to(&self, out: &mut String)
        ensures
            final(out)@ == old(out)@ + self.code(),
    {
        match self {
            TaskProximity::VeryHigh => {
                push_char(out, 'V');
                push_char(out, 'H');
            },
            TaskProximity::High => {
                push_char(out, 'H');
            },
            TaskProximity::Medium => {
                push_char(out, 'M');
            },
            TaskProximity::Low => {
                push_char(out, 'L');
            },
            TaskProximity::VeryLow => {
                push_char(out, 'V');
                push_char(out, 'L');
            },
        }
        assert(out@ =~= old(out)@ + self.code());
    }

    /// The code of the value, which reads back as the same value.
    pub fn format(&self) -> (text: String)
        ensures
            text@ == self.code(),
            TaskProximity::parse_spec(text@) == Ok::<TaskProximity, TaskConversationError>(*self),
    {
        let mut text = String::new();
        self.push_to(&mut text);
        proof {
            self.lemma_parse_code();
        }
        text
    }

    /// No code holds a space or a newline.
    pub proof fn lemma_code_separator_free(self, sep: char)
        requires
            sep == ' ' || sep == '\n',
        ensures
            separator_free(self.code(), sep),
    {
    }

    /// Reading the code of a value gives the value back.
    pub proof fn lemma_parse_code(self)
        ensures
            TaskProximity::parse_spec(self.code()) == Ok::<
                TaskProximity,
                TaskConversationError,
            >(self),
    {
        assert(TaskProximity::VeryHigh.code().len() == 2);
        assert(TaskProximity::VeryLow.code().len() == 2);
        assert(TaskProximity::High.code().len() == 1);
        assert(TaskProximity::Medium.code().len() == 1);
        assert(TaskProximity::Low.code().len() == 1);
        assert(TaskProximity::VeryHigh.code()[1] == 'H');
        assert(TaskProximity::VeryLow.code()[1] == 'L');
        assert(TaskProximity::High.code()[0] == 'H');
        assert(TaskProximity::Medium.code()[0] == 'M');
        assert(TaskProximity::Low.code()[0] == 'L');
    }
}

impl<'a> TryFrom<&'a str> for TaskProximity {
    type Error = TaskConversationError;

    /// Reads a proximity from its code: `VH`, `H`, `M`, `L` or `VL`.
    fn try_from(value: &'a str) -> (r: Result<TaskProximity, TaskConversationError>) {
        TaskProximity::parse(value)
    }
}

impl<'a> TryFromSpecImpl<&'a str> for TaskProximity {
    open spec fn obeys_try_from_spec() -> bool {
        true
    }

    open spec fn try_from_spec(value: &'a str) -> Result<TaskProximity, TaskConversationError> {
        TaskProximity::parse_spec(value@)
    }
}

/// Where a task stands in its life. A deleted task is tagged, not removed.
#[derive(Clone, Copy, Debug, PartialEq, Eq, Structural)]
pub enum TaskStatus {
    Todo,
    InProgress,
    Finished,
    Deleted,
}

impl TaskStatus {
    /// The code that stands for the value in text.
    pub open spec fn code(self) -> Seq<char> {
        match self {
            TaskStatus::Todo => seq!['T', 'd'],
            TaskStatus::InProgress => seq!['I', 'n'],
            TaskStatus::Finished => seq!['F', 'n'],
            TaskStatus::Deleted => seq!['D', 'l'],
        }
    }

    /// The value whose code `s` is, or `RangeError` if it is no code.
    pub open spec fn parse_spec(s: Seq<char>) -> Result<TaskStatus, TaskConversationError> {
        if s == TaskStatus::Todo.code() {
            Ok(TaskStatus::Todo)
        } else if s == TaskStatus::InProgress.code() {
            Ok(TaskStatus::InProgress)
        } else if s == TaskStatus::Finished.code() {
            Ok(TaskStatus::Finished)
        } else if s == TaskStatus::Deleted.code() {
            Ok(TaskStatus::Deleted)
        } else {
            Err(TaskConversationError::RangeError)
        }
    }

    /// Reads a status from the characters of its code.
    pub fn parse_chars(s: &[char]) -> (r: Result<TaskStatus, TaskConversationError>)
        ensures
            r == Self::parse_spec(s@),
    {
        let found = if s.len() != 2 {
            None
        } else if s[0] == 'T' && s[1] == 'd' {
            Some(TaskStatus::Todo)
        } else if s[0] == 'I' && s[1] == 'n' {
            Some(TaskStatus::InProgress)
        } else if s[0] == 'F' && s[1] == 'n' {
            Some(TaskStatus::Finished)
        } else if s[0] == 'D' && s[1] == 'l' {
            Some(TaskStatus::Deleted)
        } else {
            None
        };
        match found {
            Some(st) => {
                assert(s@ =~= st.code());
                Ok(st)
            },
            None => Err(TaskConversationError::RangeError),
        }
    }

    /// Reads a status from its code: `Td`, `In`, `Fn` or `Dl`.
    pub fn parse(text: &str) -> (r: Result<TaskStatus, TaskConversationError>)
        ensures
            r == Self::parse_spec(text@),
    {
        let chars = to_chars(text);
        TaskStatus::parse_chars(chars.as_slice())
    }

    /// Appends the code of the value to `out`.
    pub fn push_to(&self, out: &mut String)
        ensures
            final(out)@ == old(out)@ + self.code(),
    {
        match self {
            TaskStatus::Todo => {
                push_char(out, 'T');
                push_char(out, 'd');
            },
            TaskStatus::InProgress => {
                push_char(out, 'I');
                push_char(out, 'n');
            },
            TaskStatus::Finished => {
                push_char(out, 'F');
                push_char(out, 'n');
            },
            TaskStatus::Deleted => {
                push_char(out, 'D');
                push_char(out, 'l');
            },
        }
        assert(out@ =~= old(out)@ + self.code());
    }

    /// The code of the value, which reads back as the same value.
    pub fn format(&self) -> (text: String)
        ensures
            text@ == self.code(),
            TaskStatus::parse_spec(text@) == Ok::<TaskStatus, TaskConversationError>(*self),
    {
        let mut text = String::new();
        self.push_to(&mut text);
        proof {
            self.lemma_parse_code();
        }
        text
    }

    /// No code holds a space or a newline.
    pub proof fn lemma_code_separator_free(self, sep: char)
        requires
            sep == ' ' || sep == '\n',
        ensures
            separator_free(self.code(), sep),
    {
    }

    /// Reading the code of a value gives the value back.
    pub proof fn lemma_parse_code(self)
        ensures
            TaskStatus::parse_spec(self.code()) == Ok::<TaskStatus, TaskConversationError>(self),
    {
        assert(TaskStatus::Todo.code()[0] == 'T');
        assert(TaskStatus::InProgress.code()[0] == 'I');
        assert(TaskStatus::Finished.code()[0] == 'F');
        assert(TaskStatus::Deleted.code()[0] == 'D');
    }
}

impl<'a> TryFrom<&'a str> for TaskStatus {
    type Error = TaskConversationError;

    /// Reads a status from its code: `Td`, `In`, `Fn` or `Dl`.
    fn try_from(value: &'a str) -> (r: Result<TaskStatus, TaskConversationError>) {
        TaskStatus::parse(value)
    }
}

impl<'a> TryFromSpecImpl<&'a str> for TaskStatus {
    open spec fn obeys_try_from_spec() -> bool {
        true
    }

    open spec fn try_from_spec(value: &'a str) -> Result<TaskStatus, TaskConversationError> {
        TaskStatus::parse_spec(value@)
    }
}

/// Something to do, with the time it belongs to.
#[derive(Debug)]
pub struct Task {
    pub datetime: Datetime,
    pub proximity: TaskProximity,
    pub status: TaskStatus,
    pub content: String,
}

/// What a task holds, with its content as a sequence of characters.
pub ghost struct TaskView {
    pub datetime: Datetime,
    pub proximity: TaskProximity,
    pub status: TaskStatus,
    pub content: Seq<char>,
}

impl View for Task {
    type V = TaskView;

    open spec fn view(&self) -> TaskView {
        TaskView {
            datetime: self.datetime,
            proximity: self.proximity,
            status: self.status,
            content: self.content@,
        }
    }
}

impl TaskView {
    /// The line that stands for the task: the date and time, the two
    /// codes and the content, with one space between them.
    pub open spec fn format_spec(self) -> Seq<char> {
        self.datetime.format_spec() + seq![' '] + self.proximity.code() + seq![' ']
            + self.status.code() + seq![' '] + self.content
    }

    /// The task can be written and read back: its date and time exist,
    /// and its content is a single field of a line.
    pub open spec fn single_token(self) -> bool {
        &&& self.datetime.valid()
        &&& separator_free(self.content, ' ')
    }

    /// A line holds a separator only where the content does.
    pub proof fn lemma_format_separator_free(self, sep: char)
        requires
            sep == '\n',
            separator_free(self.content, sep),
        ensures
            separator_free(self.format_spec(), sep),
    {
        self.datetime.lemma_format_separator_free(sep);
        self.proximity.lemma_code_separator_free(sep);
        self.status.lemma_code_separator_free(sep);
    }

    /// Reading the line of a task gives the task back, provided its date
    /// and time exist and its content holds no space.
    pub proof fn lemma_parse_format(self)
        requires
            self.single_token(),
        ensures
            Task::parse_spec(self.format_spec()) == Ok::<TaskView, TaskConversationError>(self),
    {
        let datetime = self.datetime.format_spec();
        let proximity = self.proximity.code();
        let status = self.status.code();
        self.datetime.lemma_format_separator_free(' ');
        self.proximity.lemma_code_separator_free(' ');
        self.status.lemma_code_separator_free(' ');
        assert(self.format_spec() == datetime + seq![' '] + (proximity + seq![' '] + (status
            + seq![' '] + self.content)));
        lemma_split_first(datetime, ' ', proximity + seq![' '] + (status + seq![' '] + self.content));
        lemma_split_first(proximity, ' ', status + seq![' '] + self.content);
        lemma_split_first(status, ' ', self.content);
        lemma_split_single(self.content, ' ');
        assert(split(self.format_spec(), ' ') == seq![datetime, proximity, status, self.content]);
        self.datetime.lemma_parse_format();
        self.proximity.lemma_parse_code();
        self.status.lemma_parse_code();
    }
}

impl Task {
    /// What a line stands for: its first four fields between spaces are
    /// the date and time, the proximity, the status and the content. The
    /// first field that is wrong decides the error.
    pub open spec fn parse_spec(s: Seq<char>) -> Result<TaskView, TaskConversationError> {
        let fields = split(s, ' ');
        if fields.len() < 4 {
            Err(TaskConversationError::TooFewArgumentsError)
        } else {
            match Datetime::parse_spec(fields[0]) {
                Err(e) => Err(TaskConversationError::of_datetime(e)),
                Ok(datetime) => match TaskProximity::parse_spec(fields[1]) {
                    Err(e) => Err(e),
                    Ok(proximity) => match TaskStatus::parse_spec(fields[2]) {
                        Err(e) => Err(e),
                        Ok(status) => Ok(
                            TaskView { datetime, proximity, status, content: fields[3] },
                        ),
                    },
                },
            }
        }
    }

    /// The outcome of reading, with the task taken by its view.
    pub open spec fn outcome(r: Result<Task, TaskConversationError>) -> Result<
        TaskView,
        TaskConversationError,
    > {
        match r {
            Ok(task) => Ok(task@),
            Err(e) => Err(e),
        }
    }

    /// Reads a task from the characters of its line.
    pub fn parse_chars(s: &[char]) -> (r: Result<Task, TaskConversationError>)
        ensures
            Self::outcome(r) == Self::parse_spec(s@),
    {
        let fields = split_fields(s, ' ');
        if fields.len() < 4 {
            return Err(TaskConversationError::TooFewArgumentsError);
        }
        let datetime = match Datetime::parse_chars(fields[0]) {
            Ok(v) => v,
            Err(e) => {
                return Err(TaskConversationError::from(e));
            },
        };
        let proximity = match TaskProximity::parse_chars(fields[1]) {
            Ok(v) => v,
            Err(e) => {
                return Err(e);
            },
        };
        let status = match TaskStatus::parse_chars(fields[2]) {
            Ok(v) => v,
            Err(e) => {
                return Err(e);
            },
        };
        Ok(Task { datetime, proximity, status, content: to_string(fields[3]) })
    }

    /// Reads a task from a line such as `2023-01-01.10:30 VH Td hi`.
    pub fn parse(line: &str) -> (r: Result<Task, TaskConversationError>)
        ensures
            Self::outcome(r) == Self::parse_spec(line@),
    {
        let chars = to_chars(line);
        Task::parse_chars(chars.as_slice())
    }

    /// Appends the line of the task to `out`.
    pub fn push_to(&self, out: &mut String)
        ensures
            final(out)@ == old(out)@ + self@.format_spec(),
    {
        self.datetime.push_to(out);
        push_char(out, ' ');
        self.proximity.push_to(out);
        push_char(out, ' ');
        self.status.push_to(out);
        push_char(out, ' ');
        out.append(self.content.as_str());
        assert(out@ =~= old(out)@ + self@.format_spec());
    }

    /// The line of the task, which reads back as the same task where its
    /// date and time exist and its content holds no space.
    pub fn format(&self) -> (text: String)
        ensures
            text@ == self@.format_spec(),
            self@.single_token() ==> Task::parse_spec(text@) == Ok::<
                TaskView,
                TaskConversationError,
            >(self@),
    {
        let mut text = String::new();
        self.push_to(&mut text);
        proof {
            if self@.single_token() {
                self@.lemma_parse_format();
            }
        }
        text
    }
}

impl<'a> TryFrom<&'a str> for Task {
    type Error = TaskConversationError;

    /// Reads a task from a line such as `2023-01-01.10:30 VH Td hi`.
    fn try_from(value: &'a str) -> (r: Result<Task, TaskConversationError>)
        ensures
            Task::outcome(r) == Task::parse_spec(value@),
    {
        Task::parse(value)
    }
}

impl<'a> TryFromSpecImpl<&'a str> for Task {
    /// A text fixes what the task read from it holds, not which string
    /// carries its content: the result is stated by `try_from` itself,
    /// over the task's view.
    open spec fn obeys_try_from_spec() -> bool {
        false
    }

    open spec fn try_from_spec(value: &'a str) -> Result<Task, TaskConversationError> {
        match Task::parse_spec(value@) {
            Ok(view) => Ok(choose|task: Task| task@ == view),
            Err(e) => Err(e),
        }
    }
}

impl Clone for Task {
    fn clone(&self) -> (r: Task)
        ensures
            r == *self,
    {
        Task {
            datetime: self.datetime,
            proximity: self.proximity,
            status: self.status,
            content: self.content.clone(),
        }
    }
}

impl PartialEq for Task {
    fn eq(&self, other: &Task) -> (r: bool) {
        self.datetime == other.datetime && self.proximity == other.proximity && self.status
            == other.status && self.content == other.content
    }
}

impl PartialEqSpecImpl for Task {
    open spec fn obeys_eq_spec() -> bool {
        true
    }

    open spec fn eq_spec(&self, other: &Task) -> bool {
        self@ == other@
    }
}

impl Eq for Task {

}

} // verus!
