//! The list and its editor as a value of mathematics, and each operation as a
//! function from the state before to the state after.
//!
//! What is shown is a copy of the tasks, all of them or those that match the
//! search. An operation on the selected line takes the identifier of the task
//! shown there and looks the task up among the tasks that are kept.

use crate::calendar::{Date, Moment, TimeOfDay};
use crate::due::is_canonical_due;
use crate::guard::english_safe;
use crate::splitter::{english_date, split};
use crate::store::{ids_of, largest, place_of, store_wf, sub_ids_of};
use crate::task::{task_matches, Priority, SubTaskModel, TaskModel};
use crate::words::{lowercase, tags_of, trimmed};
use vstd::prelude::*;

verus! {

/// What waits for a yes or a no.
#[derive(Clone, Copy, Debug, PartialEq, Eq, Structural)]
pub enum PendingAction {
    /// Deleting the selected task.
    DeleteSelected,
    /// Deleting every completed task.
    ClearCompleted,
}

/// What the editor is doing.
#[derive(Clone, Copy, Debug, PartialEq, Eq, Structural)]
pub enum AppMode {
    /// Moving about the list. Every other mode ends here.
    Normal,
    /// Typing a new task, or a new sub-task of the selected task.
    Insert { sub_task: bool },
    /// Typing a due date for the selected task.
    DateInput,
    /// Typing a search word; the list shows what matches it.
    Search,
    /// Waiting for a yes or a no.
    Confirm { action: PendingAction },
    /// Showing the help.
    Help,
}

/// A key of the keyboard.
#[derive(Clone, Copy, Debug, PartialEq, Eq, Structural)]
pub enum Key {
    Char(char),
    Enter,
    Esc,
    Backspace,
    Up,
    Down,
    F(u8),
    Other,
}

/// What is left to do, after a key, to whoever runs the editor.
#[derive(Clone, Copy, Debug, PartialEq, Eq, Structural)]
pub enum Outcome {
    /// Nothing: wait for the next key.
    Continue,
    /// Save the tasks and leave.
    Quit,
    /// Show the next colour theme.
    CycleTheme,
    /// Ask the English parser about what was typed, and add the task with
    /// what it read. The editor does not ask it itself about a text on which
    /// the parser may stop the program.
    AskParser,
}

/// The state of the editor.
pub struct AppModel {
    /// The tasks that are kept.
    pub tasks: Seq<TaskModel>,
    /// The selected line of what is shown.
    pub selected: Option<int>,
    pub mode: AppMode,
    /// What was typed of a new task.
    pub input: Seq<char>,
    /// What was typed of a due date.
    pub date_input: Seq<char>,
    /// What was typed of a search word.
    pub search_input: Seq<char>,
    pub margin: u16,
    /// Whether completed tasks are left out of the picture.
    pub focus_mode: bool,
}

/// The test that a task matches the search word `needle`.
pub open spec fn matcher(needle: Seq<char>) -> spec_fn(TaskModel) -> bool {
    |item: TaskModel| task_matches(item, needle)
}

/// The test that a task is not completed.
pub open spec fn pending() -> spec_fn(TaskModel) -> bool {
    |item: TaskModel| !item.completed
}

/// What the English parser read in a text, if it read a date.
pub type Parsed = Option<(Date, TimeOfDay)>;

/// The description of a task made of `input`, where the English parser read
/// `parsed`: what splitting leaves of it, or all of it where that is blank.
pub open spec fn description_of(input: Seq<char>, now: Moment, parsed: Parsed) -> Seq<char> {
    let left = split(input, now, parsed).0;
    if trimmed(left).len() == 0 {
        input
    } else {
        left
    }
}

/// The due date of a task made of `input`.
pub open spec fn due_of(input: Seq<char>, now: Moment, parsed: Parsed) -> Option<Seq<char>> {
    split(input, now, parsed).1
}

/// The task made of `input` at the moment `now`, under the identifier `id`.
pub open spec fn new_task(input: Seq<char>, now: Moment, parsed: Parsed, id: u64) -> TaskModel {
    TaskModel {
        id,
        description: description_of(input, now, parsed),
        completed: false,
        priority: Priority::Medium,
        due_date: due_of(input, now, parsed),
        tags: tags_of(input),
        sub_tasks: Seq::empty(),
    }
}

/// The sub-task made of `input` at the moment `now`, under the identifier `id`.
pub open spec fn new_sub_task(
    input: Seq<char>,
    now: Moment,
    parsed: Parsed,
    id: u64,
) -> SubTaskModel {
    SubTaskModel {
        id,
        description: description_of(input, now, parsed),
        completed: false,
        priority: Priority::Medium,
        due_date: due_of(input, now, parsed),
        tags: tags_of(input),
    }
}

/// The smaller of two numbers.
pub open spec fn least(a: int, b: int) -> int {
    if a <= b {
        a
    } else {
        b
    }
}

impl AppModel {
    /// The tasks that are kept are well-formed.
    pub open spec fn wf(self) -> bool {
        store_wf(self.tasks)
    }

    /// The tasks that match the search word in lower case; all of them where
    /// there is no search word.
    pub open spec fn filtered(self) -> Seq<TaskModel> {
        if self.search_input.len() == 0 {
            self.tasks
        } else {
            self.tasks.filter(matcher(lowercase(self.search_input)))
        }
    }

    /// The tasks that are shown: in search mode with a search word, those that
    /// match it; else all.
    pub open spec fn displayed(self) -> Seq<TaskModel> {
        if self.mode == AppMode::Search && self.search_input.len() > 0 {
            self.filtered()
        } else {
            self.tasks
        }
    }

    /// The identifier of the task on the selected line.
    pub open spec fn selected_id(self) -> Option<u64> {
        match self.selected {
            Some(line) => if 0 <= line < self.displayed().len() {
                Some(self.displayed()[line].id)
            } else {
                None
            },
            None => None,
        }
    }

    /// The place, among the tasks that are kept, of the task on the selected line.
    pub open spec fn target(self) -> Option<int> {
        match self.selected_id() {
            Some(id) => place_of(ids_of(self.tasks), id),
            None => None,
        }
    }

    /// The state with the task at `at` replaced.
    pub open spec fn with_task(self, at: int, item: TaskModel) -> AppModel {
        AppModel { tasks: self.tasks.update(at, item), ..self }
    }

    /// After `zoom_in`: the margin is one less, and not less than 0.
    pub open spec fn zoomed_in(self) -> AppModel {
        AppModel {
            margin: if self.margin > 0 {
                (self.margin - 1) as u16
            } else {
                0
            },
            ..self
        }
    }

    /// After `zoom_out`: the margin is one more, and not more than `u16::MAX`.
    pub open spec fn zoomed_out(self) -> AppModel {
        AppModel {
            margin: if self.margin < u16::MAX {
                (self.margin + 1) as u16
            } else {
                u16::MAX
            },
            ..self
        }
    }

    /// After `next`: the line below is selected, the first after the last, and
    /// the first where none was. Nothing changes where nothing is shown.
    pub open spec fn moved_down(self) -> AppModel {
        let shown = self.displayed().len() as int;
        if shown == 0 {
            self
        } else {
            AppModel {
                selected: Some(
                    match self.selected {
                        Some(line) => (line + 1) % shown,
                        None => 0,
                    },
                ),
                ..self
            }
        }
    }

    /// After `previous`: the line above is selected, the last before the
    /// first, and the first where none was. Nothing changes where nothing is
    /// shown.
    pub open spec fn moved_up(self) -> AppModel {
        let shown = self.displayed().len() as int;
        if shown == 0 {
            self
        } else {
            AppModel {
                selected: Some(
                    match self.selected {
                        Some(line) => (line + shown - 1) % shown,
                        None => 0,
                    },
                ),
                ..self
            }
        }
    }

    /// After `toggle_completed`: the selected task is completed if it was
    /// not, and not if it was.
    pub open spec fn toggled(self) -> AppModel {
        match self.target() {
            Some(at) => self.with_task(
                at,
                TaskModel { completed: !self.tasks[at].completed, ..self.tasks[at] },
            ),
            None => self,
        }
    }

    /// After `cycle_priority`: the priority of the selected task is one step up.
    pub open spec fn priority_cycled(self) -> AppModel {
        match self.target() {
            Some(at) => self.with_task(
                at,
                TaskModel { priority: self.tasks[at].priority.cycled(), ..self.tasks[at] },
            ),
            None => self,
        }
    }

    /// After `set_due_date`: what was typed is the due date of the selected
    /// task and is typed no longer, where it is of canonical shape and a task
    /// is selected. The mode is `Normal` in every case.
    pub open spec fn due_date_set(self) -> AppModel {
        match self.target() {
            Some(at) => if is_canonical_due(self.date_input) {
                AppModel {
                    date_input: Seq::empty(),
                    mode: AppMode::Normal,
                    ..self.with_task(
                        at,
                        TaskModel { due_date: Some(self.date_input), ..self.tasks[at] },
                    )
                }
            } else {
                AppModel { mode: AppMode::Normal, ..self }
            },
            None => AppModel { mode: AppMode::Normal, ..self },
        }
    }

    /// After `delete_task`: the selected task is kept no longer, and the
    /// selection is the line it was, or the last line where that is above it,
    /// or none where nothing is shown.
    pub open spec fn deleted(self) -> AppModel {
        match self.selected_id() {
            Some(id) => {
                let left = AppModel {
                    tasks: match place_of(ids_of(self.tasks), id) {
                        Some(at) => self.tasks.remove(at),
                        None => self.tasks,
                    },
                    ..self
                };
                let shown = left.displayed().len() as int;
                AppModel {
                    selected: if shown > 0 {
                        Some(least(self.selected->0, shown - 1))
                    } else {
                        None
                    },
                    ..left
                }
            },
            None => self,
        }
    }

    /// After the completed tasks are cleared: those that are not completed
    /// are kept, and the selection is on a line that is shown.
    pub open spec fn completed_cleared(self) -> AppModel {
        let left = AppModel { tasks: self.tasks.filter(pending()), ..self };
        let shown = left.displayed().len() as int;
        AppModel {
            selected: match self.selected {
                Some(line) => if shown > 0 {
                    Some(least(line, shown - 1))
                } else {
                    None
                },
                None => None,
            },
            ..left
        }
    }

    /// Whether a task can be made of what was typed: something was typed, and
    /// an identifier above those of `ids` is left.
    pub open spec fn can_add(self, ids: Seq<u64>) -> bool {
        self.input.len() > 0 && largest(ids) < u64::MAX
    }

    /// The tasks after a task was made of what was typed: it is the last, under
    /// the identifier one above the largest.
    pub open spec fn tasks_with_new(self, now: Moment, parsed: Parsed) -> Seq<TaskModel> {
        if self.can_add(ids_of(self.tasks)) {
            self.tasks.push(
                new_task(self.input, now, parsed, (largest(ids_of(self.tasks)) + 1) as u64),
            )
        } else {
            self.tasks
        }
    }

    /// The tasks after a sub-task of the selected task was made of what was
    /// typed: it is the last of its sub-tasks, under the identifier one above
    /// the largest of theirs.
    pub open spec fn tasks_with_new_sub(self, now: Moment, parsed: Parsed) -> Seq<TaskModel> {
        match self.target() {
            Some(at) => {
                let parent = self.tasks[at];
                let ids = sub_ids_of(parent.sub_tasks);
                if self.can_add(ids) {
                    self.tasks.update(
                        at,
                        TaskModel {
                            sub_tasks: parent.sub_tasks.push(
                                new_sub_task(self.input, now, parsed, (largest(ids) + 1) as u64),
                            ),
                            ..parent
                        },
                    )
                } else {
                    self.tasks
                }
            },
            None => self.tasks,
        }
    }

    /// After `add_sub_task`: a sub-task of the selected task is made of what
    /// was typed, nothing is typed any longer, and the mode is `Normal`.
    pub open spec fn sub_task_added(self, now: Moment, parsed: Parsed) -> AppModel {
        AppModel {
            tasks: self.tasks_with_new_sub(now, parsed),
            input: Seq::empty(),
            mode: AppMode::Normal,
            ..self
        }
    }

    /// After `add_task`: a task is made of what was typed, a sub-task where
    /// the mode asks for one; nothing is typed any longer, and the mode is
    /// `Normal`.
    pub open spec fn task_added(self, now: Moment, parsed: Parsed) -> AppModel {
        if self.mode == (AppMode::Insert { sub_task: true }) {
            self.sub_task_added(now, parsed)
        } else {
            AppModel {
                tasks: self.tasks_with_new(now, parsed),
                input: Seq::empty(),
                mode: AppMode::Normal,
                ..self
            }
        }
    }

    /// After a yes in `Confirm` mode: what waited is done, from `Normal` mode.
    pub open spec fn confirmed(self) -> AppModel {
        let back = AppModel { mode: AppMode::Normal, ..self };
        match self.mode {
            AppMode::Confirm { action: PendingAction::DeleteSelected } => back.deleted(),
            AppMode::Confirm { action: PendingAction::ClearCompleted } => back.completed_cleared(),
            _ => self,
        }
    }

    /// The state in another mode.
    pub open spec fn in_mode(self, mode: AppMode) -> AppModel {
        AppModel { mode, ..self }
    }

    /// The state after a key in `Normal` mode.
    pub open spec fn after_normal_key(self, key: Key) -> AppModel {
        match key {
            Key::Down => self.moved_down(),
            Key::Up => self.moved_up(),
            Key::Enter => self.toggled(),
            Key::F(n) => if n == 1 {
                self.in_mode(AppMode::Help)
            } else {
                self
            },
            Key::Char(c) => if c == 'a' {
                self.in_mode(AppMode::Insert { sub_task: false })
            } else if c == 's' {
                self.in_mode(AppMode::Insert { sub_task: true })
            } else if c == 'd' {
                self.in_mode(AppMode::Confirm { action: PendingAction::DeleteSelected })
            } else if c == 'C' {
                self.in_mode(AppMode::Confirm { action: PendingAction::ClearCompleted })
            } else if c == 'p' {
                self.priority_cycled()
            } else if c == 'D' {
                self.in_mode(AppMode::DateInput)
            } else if c == '/' {
                self.in_mode(AppMode::Search)
            } else if c == 'f' {
                AppModel { focus_mode: !self.focus_mode, ..self }
            } else if c == 'h' {
                self.in_mode(AppMode::Help)
            } else if c == '+' {
                self.zoomed_in()
            } else if c == '-' {
                self.zoomed_out()
            } else {
                self
            },
            _ => self,
        }
    }

    /// The state after a key.
    ///
    /// A character typed in `Insert`, `DateInput` or `Search` mode joins what
    /// was typed there, and Backspace takes the last away. Enter commits:
    /// it adds the task, sets the due date, or ends the search. Esc cancels
    /// and leaves what was typed as it is. Enter in `Insert` mode changes
    /// nothing where the English parser is to be asked from outside: the task
    /// is added once its reading is handed in.
    pub open spec fn after_key(self, key: Key, now: Moment) -> AppModel {
        match self.mode {
            AppMode::Normal => self.after_normal_key(key),
            AppMode::Insert { sub_task } => match key {
                Key::Enter => if english_safe(self.input) {
                    self.task_added(now, english_date(self.input, now))
                } else {
                    self
                },
                Key::Char(c) => AppModel { input: self.input.push(c), ..self },
                Key::Backspace => AppModel { input: without_last(self.input), ..self },
                Key::Esc => self.in_mode(AppMode::Normal),
                _ => self,
            },
            AppMode::DateInput => match key {
                Key::Enter => self.due_date_set(),
                Key::Char(c) => AppModel { date_input: self.date_input.push(c), ..self },
                Key::Backspace => AppModel { date_input: without_last(self.date_input), ..self },
                Key::Esc => self.in_mode(AppMode::Normal),
                _ => self,
            },
            AppMode::Search => match key {
                Key::Enter => self.in_mode(AppMode::Normal),
                Key::Esc => self.in_mode(AppMode::Normal),
                Key::Char(c) => AppModel { search_input: self.search_input.push(c), ..self },
                Key::Backspace => AppModel {
                    search_input: without_last(self.search_input),
                    ..self
                },
                _ => self,
            },
            AppMode::Confirm { action } => match key {
                Key::Char(c) => if c == 'y' || c == 'Y' {
                    self.confirmed()
                } else if c == 'n' || c == 'N' {
                    self.in_mode(AppMode::Normal)
                } else {
                    self
                },
                Key::Esc => self.in_mode(AppMode::Normal),
                _ => self,
            },
            AppMode::Help => match key {
                Key::Esc => self.in_mode(AppMode::Normal),
                Key::F(n) => if n == 1 {
                    self.in_mode(AppMode::Normal)
                } else {
                    self
                },
                Key::Char(c) => if c == 'h' || c == 'q' {
                    self.in_mode(AppMode::Normal)
                } else {
                    self
                },
                _ => self,
            },
        }
    }

    /// What a key leaves to do: `q` in `Normal` mode asks to quit, `t` for the
    /// next colour theme; Enter in `Insert` mode asks for the English parser
    /// where the editor does not ask it itself.
    pub open spec fn outcome_of(self, key: Key) -> Outcome {
        if self.mode == AppMode::Normal && key == Key::Char('q') {
            Outcome::Quit
        } else if self.mode == AppMode::Normal && key == Key::Char('t') {
            Outcome::CycleTheme
        } else if self.mode is Insert && key == Key::Enter && !english_safe(self.input) {
            Outcome::AskParser
        } else {
            Outcome::Continue
        }
    }
}

/// `s` without its last character; `s` itself where it is empty.
pub open spec fn without_last(s: Seq<char>) -> Seq<char> {
    if s.len() > 0 {
        s.drop_last()
    } else {
        s
    }
}

} // verus!
