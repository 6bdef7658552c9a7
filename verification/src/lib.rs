//! A small task tracker: calendar dates and times, task records with a
//! one-line text form, and an ordered store of tasks that is written to
//! and read from newline-delimited text.
//!
//! Every text form is specified over sequences of characters: each type
//! has a `format_spec` that says what its text is and a `parse_spec` that
//! says what a text stands for, and the executable functions are proved
//! against them.

pub mod text;
pub mod datetime;
pub mod task;
pub mod task_storage;
