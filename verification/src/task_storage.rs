//! An ordered collection of tasks and its text form.
//!
//! The text holds one task per line, in order, and ends with a newline.
//! Loading is best effort: a line that is no task is passed over, and
//! the tasks of the other lines are kept in the order of their lines.

use vstd::prelude::*;
use crate::task::error::TaskConversationError;
use crate::task::{Task, TaskView};
use crate::text::split::{
    lemma_split_last, lemma_split_single, separator_free, split, split_fields,
};
use crate::text::{push_char, to_chars};

verus! {

/// The tasks held in memory, in the order of their lines.
pub struct TaskStorage {
    pub tasks: Vec<Task>,
}

impl View for TaskStorage {
    type V = Seq<TaskView>;

    open spec fn view(&self) -> Seq<TaskView> {
        self.tasks@.map_values(|task: Task| task@)
    }
}

/// The tasks that the lines stand for, in order, without the lines that
/// stand for none.
pub open spec fn tasks_of_lines(lines: Seq<Seq<char>>) -> Seq<TaskView>
    decreases lines.len(),
{
    if lines.len() == 0 {
        Seq::empty()
    } else {
        let before = tasks_of_lines(lines.drop_last());
        match Task::parse_spec(lines.last()) {
            Ok(task) => before.push(task),
            Err(_) => before,
        }
    }
}

/// The lines of the tasks, each followed by a newline except the last.
pub open spec fn joined_lines(tasks: Seq<TaskView>) -> Seq<char>
    decreases tasks.len(),
{
    if tasks.len() == 0 {
        Seq::empty()
    } else if tasks.len() == 1 {
        tasks[0].format_spec()
    } else {
        joined_lines(tasks.drop_last()) + seq!['\n'] + tasks.last().format_spec()
    }
}

/// The lines of the tasks, one for each.
pub open spec fn lines_of(tasks: Seq<TaskView>) -> Seq<Seq<char>> {
    tasks.map_values(|task: TaskView| task.format_spec())
}

/// Every task can be written on a line of its own and read back: its
/// date and time exist, and its content holds no space and no newline.
pub open spec fn all_single_line(tasks: Seq<TaskView>) -> bool {
    forall|i: int|
        0 <= i < tasks.len() ==> (#[trigger] tasks[i]).single_token() && separator_free(
            tasks[i].content,
            '\n',
        )
}

/// The joined lines of tasks whose lines hold no newline split into
/// those lines again.
pub proof fn lemma_split_joined_lines(tasks: Seq<TaskView>)
    requires
        tasks.len() >= 1,
        forall|i: int| 0 <= i < tasks.len() ==> separator_free(#[trigger] lines_of(tasks)[i], '\n'),
    ensures
        split(joined_lines(tasks), '\n') == lines_of(tasks),
    decreases tasks.len(),
{
    let last = tasks.last().format_spec();
    assert(lines_of(tasks)[tasks.len() - 1] == last);
    if tasks.len() == 1 {
        lemma_split_single(last, '\n');
        assert(lines_of(tasks) =~= seq![last]);
    } else {
        let front = tasks.drop_last();
        assert(lines_of(front) =~= lines_of(tasks).drop_last());
        lemma_split_joined_lines(front);
        lemma_split_last(joined_lines(front), '\n', last);
        assert(lines_of(tasks) =~= lines_of(front).push(last));
    }
}

/// The lines of tasks that can be read back stand for those tasks.
pub proof fn lemma_tasks_of_own_lines(tasks: Seq<TaskView>)
    requires
        forall|i: int| 0 <= i < tasks.len() ==> (#[trigger] tasks[i]).single_token(),
    ensures
        tasks_of_lines(lines_of(tasks)) == tasks,
    decreases tasks.len(),
{
    if tasks.len() > 0 {
        let front = tasks.drop_last();
        lemma_tasks_of_own_lines(front);
        tasks.last().lemma_parse_format();
        assert(lines_of(tasks).drop_last() =~= lines_of(front));
        assert(lines_of(tasks).last() == tasks.last().format_spec());
        assert(front.push(tasks.last()) =~= tasks);
    }
}

impl TaskStorage {
    /// What a text holds: the tasks of its lines.
    pub open spec fn load_spec(text: Seq<char>) -> Seq<TaskView> {
        tasks_of_lines(split(text, '\n'))
    }

    /// The text of a collection: the lines of its tasks joined by
    /// newlines, and one newline at the end.
    pub open spec fn save_spec(tasks: Seq<TaskView>) -> Seq<char> {
        joined_lines(tasks) + seq!['\n']
    }

    /// A collection without tasks.
    pub fn new() -> (r: TaskStorage)
        ensures
            r@ == Seq::<TaskView>::empty(),
    {
        let r = TaskStorage { tasks: Vec::new() };
        assert(r@ =~= Seq::<TaskView>::empty());
        r
    }

    /// Replaces the tasks held by those that `text` holds.
    pub fn load_from_str(&mut self, text: &str)
        ensures
            final(self)@ == Self::load_spec(text@),
    {
        let chars = to_chars(text);
        let lines = split_fields(chars.as_slice(), '\n');
        let ghost all = split(text@, '\n');
        let mut tasks: Vec<Task> = Vec::new();
        let mut i: usize = 0;
        assert(all.take(0) =~= Seq::<Seq<char>>::empty());
        while i < lines.len()
            invariant
                i <= lines.len(),
                lines.len() == all.len(),
                forall|k: int| 0 <= k < lines.len() ==> (#[trigger] lines[k])@ == all[k],
                tasks@.map_values(|task: Task| task@) == tasks_of_lines(all.take(i as int)),
            decreases lines.len() - i,
        {
            let ghost before = tasks@.map_values(|task: Task| task@);
            proof {
                assert(all.take(i + 1).drop_last() == all.take(i as int));
                assert(all.take(i + 1).last() == all[i as int]);
            }
            match Task::parse_chars(lines[i]) {
                Ok(task) => {
                    tasks.push(task);
                    assert(tasks@.map_values(|task: Task| task@) =~= before.push(task@));
                },
                Err(_) => {},
            }
            i += 1;
        }
        assert(all.take(lines.len() as int) == all);
        self.tasks = tasks;
    }

    /// The text of the collection.
    pub fn save_to_string(&self) -> (text: String)
        ensures
            text@ == Self::save_spec(self@),
    {
        let mut text = String::new();
        let mut i: usize = 0;
        assert(self@.take(0) =~= Seq::<TaskView>::empty());
        while i < self.tasks.len()
            invariant
                i <= self.tasks.len(),
                text@ == joined_lines(self@.take(i as int)),
            decreases self.tasks.len() - i,
        {
            proof {
                assert(self@.take(i + 1).drop_last() == self@.take(i as int));
                assert(self@.take(i + 1).last() == self.tasks[i as int]@);
            }
            if i > 0 {
                push_char(&mut text, '\n');
            }
            self.tasks[i].push_to(&mut text);
            proof {
                if i == 0 {
                    assert(text@ =~= self.tasks[0]@.format_spec());
                    assert(self@.take(1)[0] == self.tasks[0]@);
                } else {
                    assert(text@ =~= joined_lines(self@.take(i as int)) + seq!['\n']
                        + self.tasks[i as int]@.format_spec());
                }
            }
            i += 1;
        }
        assert(self@.take(self.tasks.len() as int) == self@);
        push_char(&mut text, '\n');
        text
    }
    /// Loading what was saved gives the same tasks in the same order,
    /// provided each of them can be written on a line of its own and
    /// read back.
    pub proof fn lemma_load_save(tasks: Seq<TaskView>)
        requires
            all_single_line(tasks),
        ensures
            Self::load_spec(Self::save_spec(tasks)) == tasks,
    {
        let nothing = Seq::<char>::empty();
        let joined = joined_lines(tasks);
        assert(Self::save_spec(tasks) =~= joined + seq!['\n'] + nothing);
        lemma_split_last(joined, '\n', nothing);
        lemma_split_single(nothing, ' ');
        assert(Task::parse_spec(nothing) == Err::<TaskView, TaskConversationError>(
            TaskConversationError::TooFewArgumentsError,
        ));
        if tasks.len() == 0 {
            lemma_split_single(nothing, '\n');
            let lines = seq![nothing].push(nothing);
            assert(lines.drop_last() =~= seq![nothing]);
            assert(seq![nothing].drop_last() =~= Seq::<Seq<char>>::empty());
            assert(seq![nothing].last() == nothing);
            assert(tasks_of_lines(Seq::<Seq<char>>::empty()) == Seq::<TaskView>::empty());
            assert(tasks_of_lines(seq![nothing]) == Seq::<TaskView>::empty());
            assert(lines.last() == nothing);
            assert(tasks =~= Seq::<TaskView>::empty());
        } else {
            assert forall|i: int| 0 <= i < tasks.len() implies separator_free(
                #[trigger] lines_of(tasks)[i],
                '\n',
            ) by {
                tasks[i].lemma_format_separator_free('\n');
            }
            lemma_split_joined_lines(tasks);
            let lines = lines_of(tasks).push(nothing);
            assert(lines.drop_last() =~= lines_of(tasks));
            lemma_tasks_of_own_lines(tasks);
        }
    }
}

} // verus!
