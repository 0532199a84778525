//! Tasks, their sub-tasks, and what a search word matches in them.

use crate::text::{chars_of, contains, has, is_word};
use crate::words::{lowercase, to_lowercase};
use vstd::prelude::*;

verus! {

/// How urgent a task is: `Low`, then `Medium`, then `High`.
#[derive(Clone, Copy, Debug, PartialEq, Eq, PartialOrd, Ord, Structural)]
pub enum Priority {
    Low,
    Medium,
    High,
}

impl Priority {
    /// The place of the priority among the three, 0 for `Low`.
    pub open spec fn rank(self) -> int {
        match self {
            Priority::Low => 0,
            Priority::Medium => 1,
            Priority::High => 2,
        }
    }

    /// The priority one step up, and `Low` after `High`.
    pub open spec fn cycled(self) -> Priority {
        match self {
            Priority::Low => Priority::Medium,
            Priority::Medium => Priority::High,
            Priority::High => Priority::Low,
        }
    }

    /// The priority one step up, and `Low` after `High`.
    pub fn next(self) -> (r: Priority)
        ensures
            r == self.cycled(),
            r.rank() == (self.rank() + 1) % 3,
    {
        match self {
            Priority::Low => Priority::Medium,
            Priority::Medium => Priority::High,
            Priority::High => Priority::Low,
        }
    }
}

/// A task under another task. It has no sub-tasks of its own.
#[derive(Clone, Debug, PartialEq, Eq)]
pub struct SubTask {
    pub id: u64,
    pub description: String,
    pub completed: bool,
    pub priority: Priority,
    pub due_date: Option<String>,
    pub tags: Vec<String>,
}

/// A task of the list.
#[derive(Clone, Debug, PartialEq, Eq)]
pub struct Task {
    pub id: u64,
    pub description: String,
    pub completed: bool,
    pub priority: Priority,
    pub due_date: Option<String>,
    pub tags: Vec<String>,
    pub sub_tasks: Vec<SubTask>,
}

/// A sub-task as a value of mathematics.
pub struct SubTaskModel {
    pub id: u64,
    pub description: Seq<char>,
    pub completed: bool,
    pub priority: Priority,
    pub due_date: Option<Seq<char>>,
    pub tags: Seq<Seq<char>>,
}

/// A task as a value of mathematics.
pub struct TaskModel {
    pub id: u64,
    pub description: Seq<char>,
    pub completed: bool,
    pub priority: Priority,
    pub due_date: Option<Seq<char>>,
    pub tags: Seq<Seq<char>>,
    pub sub_tasks: Seq<SubTaskModel>,
}

impl View for SubTask {
    type V = SubTaskModel;

    open spec fn view(&self) -> SubTaskModel {
        SubTaskModel {
            id: self.id,
            description: self.description@,
            completed: self.completed,
            priority: self.priority,
            due_date: self.due_date.deep_view(),
            tags: self.tags.deep_view(),
        }
    }
}

/// The models of sub-tasks.
pub open spec fn sub_models(items: Seq<SubTask>) -> Seq<SubTaskModel> {
    Seq::new(items.len(), |i: int| items[i]@)
}

impl View for Task {
    type V = TaskModel;

    open spec fn view(&self) -> TaskModel {
        TaskModel {
            id: self.id,
            description: self.description@,
            completed: self.completed,
            priority: self.priority,
            due_date: self.due_date.deep_view(),
            tags: self.tags.deep_view(),
            sub_tasks: sub_models(self.sub_tasks@),
        }
    }
}

/// The models of tasks.
pub open spec fn models(items: Seq<Task>) -> Seq<TaskModel> {
    Seq::new(items.len(), |i: int| items[i]@)
}

/// `needle` stands in the lower-case form of `s`.
pub open spec fn text_matches(s: Seq<char>, needle: Seq<char>) -> bool {
    contains(lowercase(s), needle)
}

/// `needle` stands in the lower-case form of one of the tags.
pub open spec fn some_tag_matches(tags: Seq<Seq<char>>, needle: Seq<char>) -> bool {
    exists|i: int| 0 <= i < tags.len() && text_matches(#[trigger] tags[i], needle)
}

/// `needle` is a name of the priority.
pub open spec fn names_priority(priority: Priority, needle: Seq<char>) -> bool {
    match priority {
        Priority::High => needle == "high"@ || needle == "h"@,
        Priority::Medium => needle == "medium"@ || needle == "med"@ || needle == "m"@,
        Priority::Low => needle == "low"@ || needle == "l"@,
    }
}

/// `needle` is a name of the state of completion.
pub open spec fn names_state(completed: bool, needle: Seq<char>) -> bool {
    if completed {
        needle == "completed"@ || needle == "done"@ || needle == "finished"@
    } else {
        needle == "incomplete"@ || needle == "pending"@ || needle == "todo"@
    }
}

/// `needle` stands in the description or in a tag of the sub-task, in lower case.
pub open spec fn sub_task_matches(item: SubTaskModel, needle: Seq<char>) -> bool {
    text_matches(item.description, needle) || some_tag_matches(item.tags, needle)
}

/// One of the sub-tasks matches.
pub open spec fn some_sub_task_matches(items: Seq<SubTaskModel>, needle: Seq<char>) -> bool {
    exists|i: int| 0 <= i < items.len() && sub_task_matches(#[trigger] items[i], needle)
}

/// A task matches a search word, given in lower case, where the word stands
/// in its description or in one of its tags, both in lower case, names its
/// priority or its state, stands in its due date, or matches a sub-task.
pub open spec fn task_matches(item: TaskModel, needle: Seq<char>) -> bool {
    ||| text_matches(item.description, needle)
    ||| some_tag_matches(item.tags, needle)
    ||| names_priority(item.priority, needle)
    ||| names_state(item.completed, needle)
    ||| (item.due_date matches Some(due) && contains(due, needle))
    ||| some_sub_task_matches(item.sub_tasks, needle)
}

/// A copy of a list of texts.
pub fn copy_texts(texts: &Vec<String>) -> (r: Vec<String>)
    ensures
        r.deep_view() == texts.deep_view(),
{
    let mut out: Vec<String> = Vec::new();
    let mut i: usize = 0;
    while i < texts.len()
        invariant
            i <= texts.len(),
            out.len() == i,
            forall|j: int| 0 <= j < i ==> out@[j]@ == texts@[j]@,
        decreases texts.len() - i,
    {
        out.push(texts[i].clone());
        i += 1;
    }
    assert(out.deep_view() =~= texts.deep_view());
    out
}

/// A copy of a text that may be absent.
pub fn copy_text(text: &Option<String>) -> (r: Option<String>)
    ensures
        r.deep_view() == text.deep_view(),
{
    match text {
        Some(s) => Some(s.clone()),
        None => None,
    }
}

/// Whether `needle` stands in the lower-case form of `text`.
pub fn lower_has(text: &str, needle: &Vec<char>) -> (r: bool)
    ensures
        r == text_matches(text@, needle@),
{
    let lower = to_lowercase(text);
    has(&chars_of(lower.as_str()), needle)
}

/// Whether `needle` stands in the lower-case form of one of the tags.
pub fn tags_match(tags: &Vec<String>, needle: &Vec<char>) -> (r: bool)
    ensures
        r == some_tag_matches(tags.deep_view(), needle@),
{
    let mut i: usize = 0;
    while i < tags.len()
        invariant
            i <= tags.len(),
            forall|j: int| 0 <= j < i ==> !text_matches(#[trigger] tags.deep_view()[j], needle@),
        decreases tags.len() - i,
    {
        if lower_has(tags[i].as_str(), needle) {
            assert(text_matches(tags.deep_view()[i as int], needle@));
            return true;
        }
        i += 1;
    }
    false
}

/// Whether `needle` is a name of the priority.
pub fn priority_named(priority: Priority, needle: &Vec<char>) -> (r: bool)
    ensures
        r == names_priority(priority, needle@),
{
    match priority {
        Priority::High => is_word(needle, "high") || is_word(needle, "h"),
        Priority::Medium => is_word(needle, "medium") || is_word(needle, "med") || is_word(
            needle,
            "m",
        ),
        Priority::Low => is_word(needle, "low") || is_word(needle, "l"),
    }
}

/// Whether `needle` is a name of the state of completion.
pub fn state_named(completed: bool, needle: &Vec<char>) -> (r: bool)
    ensures
        r == names_state(completed, needle@),
{
    if completed {
        is_word(needle, "completed") || is_word(needle, "done") || is_word(needle, "finished")
    } else {
        is_word(needle, "incomplete") || is_word(needle, "pending") || is_word(needle, "todo")
    }
}

impl SubTask {
    /// A copy of the sub-task.
    pub fn copy(&self) -> (r: SubTask)
        ensures
            r@ == self@,
    {
        SubTask {
            id: self.id,
            description: self.description.clone(),
            completed: self.completed,
            priority: self.priority,
            due_date: copy_text(&self.due_date),
            tags: copy_texts(&self.tags),
        }
    }

    /// Whether the sub-task matches the search word `needle`.
    pub fn matches(&self, needle: &Vec<char>) -> (r: bool)
        ensures
            r == sub_task_matches(self@, needle@),
    {
        lower_has(self.description.as_str(), needle) || tags_match(&self.tags, needle)
    }
}

/// The sub-tasks that are drawn under a task: all of them, or in focus mode
/// those that are not completed, and none under a task that is.
pub open spec fn drawn_sub_tasks(item: TaskModel, focus: bool) -> Seq<SubTaskModel> {
    if !focus {
        item.sub_tasks
    } else if item.completed {
        Seq::empty()
    } else {
        item.sub_tasks.filter(|sub: SubTaskModel| !sub.completed)
    }
}

/// A copy of a list of sub-tasks.
pub fn copy_sub_tasks(items: &Vec<SubTask>) -> (r: Vec<SubTask>)
    ensures
        sub_models(r@) == sub_models(items@),
{
    let mut out: Vec<SubTask> = Vec::new();
    let mut i: usize = 0;
    while i < items.len()
        invariant
            i <= items.len(),
            out.len() == i,
            forall|j: int| 0 <= j < i ==> out@[j]@ == items@[j]@,
        decreases items.len() - i,
    {
        out.push(items[i].copy());
        i += 1;
    }
    assert(sub_models(out@) =~= sub_models(items@));
    out
}

/// Whether one of the sub-tasks matches the search word `needle`.
pub fn sub_tasks_match(items: &Vec<SubTask>, needle: &Vec<char>) -> (r: bool)
    ensures
        r == some_sub_task_matches(sub_models(items@), needle@),
{
    let mut i: usize = 0;
    while i < items.len()
        invariant
            i <= items.len(),
            forall|j: int|
                0 <= j < i ==> !sub_task_matches(#[trigger] sub_models(items@)[j], needle@),
        decreases items.len() - i,
    {
        if items[i].matches(needle) {
            assert(sub_task_matches(sub_models(items@)[i as int], needle@));
            return true;
        }
        i += 1;
    }
    false
}

impl Task {
    /// A copy of the task, its sub-tasks included.
    pub fn copy(&self) -> (r: Task)
        ensures
            r@ == self@,
    {
        Task {
            id: self.id,
            description: self.description.clone(),
            completed: self.completed,
            priority: self.priority,
            due_date: copy_text(&self.due_date),
            tags: copy_texts(&self.tags),
            sub_tasks: copy_sub_tasks(&self.sub_tasks),
        }
    }

    /// Copies of the sub-tasks that are drawn under the task.
    pub fn sub_tasks_to_draw(&self, focus: bool) -> (r: Vec<SubTask>)
        ensures
            sub_models(r@) == drawn_sub_tasks(self@, focus),
    {
        if !focus {
            return copy_sub_tasks(&self.sub_tasks);
        }
        let ghost all = sub_models(self.sub_tasks@);
        let ghost test = |sub: SubTaskModel| !sub.completed;
        let mut out: Vec<SubTask> = Vec::new();
        if self.completed {
            assert(sub_models(out@) =~= Seq::empty());
            return out;
        }
        let mut i: usize = 0;
        proof {
            reveal(Seq::filter);
            assert(all.take(0) =~= Seq::empty());
            assert(sub_models(out@) =~= all.take(0).filter(test));
        }
        while i < self.sub_tasks.len()
            invariant
                i <= self.sub_tasks.len(),
                all == sub_models(self.sub_tasks@),
                test == |sub: SubTaskModel| !sub.completed,
                sub_models(out@) == all.take(i as int).filter(test),
            decreases self.sub_tasks.len() - i,
        {
            proof {
                reveal(Seq::filter);
                assert(all.take(i + 1).drop_last() =~= all.take(i as int));
            }
            if !self.sub_tasks[i].completed {
                let ghost before = sub_models(out@);
                out.push(self.sub_tasks[i].copy());
                assert(sub_models(out@) =~= before.push(all[i as int]));
            }
            i += 1;
        }
        assert(all.take(all.len() as int) =~= all);
        out
    }

    /// Whether the task matches the search word `needle`, given in lower case.
    pub fn matches(&self, needle: &Vec<char>) -> (r: bool)
        ensures
            r == task_matches(self@, needle@),
    {
        if lower_has(self.description.as_str(), needle) || tags_match(&self.tags, needle)
            || priority_named(self.priority, needle) || state_named(self.completed, needle) {
            return true;
        }
        let in_due = match &self.due_date {
            Some(due) => has(&chars_of(due.as_str()), needle),
            None => false,
        };
        in_due || sub_tasks_match(&self.sub_tasks, needle)
    }
}

/// A copy of a list of tasks.
pub fn copy_tasks(items: &Vec<Task>) -> (r: Vec<Task>)
    ensures
        models(r@) == models(items@),
{
    let mut out: Vec<Task> = Vec::new();
    let mut i: usize = 0;
    while i < items.len()
        invariant
            i <= items.len(),
            out.len() == i,
            forall|j: int| 0 <= j < i ==> out@[j]@ == items@[j]@,
        decreases items.len() - i,
    {
        out.push(items[i].copy());
        i += 1;
    }
    assert(models(out@) =~= models(items@));
    out
}

} // verus!
