//! The editor: the tasks that are kept, what is shown of them, and the
//! operations that keys ask for.

use crate::calendar::Moment;
use crate::due::is_canonical;
use crate::guard::{english_safe, is_english_safe};
use crate::model::{matcher, new_sub_task, new_task, pending, AppModel, Parsed};
pub use crate::model::{AppMode, Key, Outcome, PendingAction};
use crate::splitter::{english_date, parse_english, split_with};
use crate::store::{
    due_ok, largest_of, lemma_filter_keeps_wf, lemma_push_keeps_sub_wf, lemma_push_keeps_wf,
    lemma_remove_keeps_wf, lemma_update_keeps_wf, mend, mended, position, sub_ids_of,
    sub_task_ids, task_ids, task_wf,
};
use crate::task::{copy_tasks, models, sub_models, Priority, SubTask, Task, TaskModel};
use crate::text::{chars_of, string_of};
use crate::words::{lowercase, tags, to_lowercase, trim};
use vstd::arithmetic::div_mod::{lemma_fundamental_div_mod, lemma_fundamental_div_mod_converse};
use vstd::prelude::*;

verus! {

/// The editor.
pub struct App {
    tasks: Vec<Task>,
    selected: Option<usize>,
    mode: AppMode,
    input: Vec<char>,
    date_input: Vec<char>,
    search_input: Vec<char>,
    margin: u16,
    focus_mode: bool,
}

/// A line of the list as a number.
pub open spec fn line_of(selected: Option<usize>) -> Option<int> {
    match selected {
        Some(line) => Some(line as int),
        None => None,
    }
}

impl View for App {
    type V = AppModel;

    closed spec fn view(&self) -> AppModel {
        AppModel {
            tasks: models(self.tasks@),
            selected: line_of(self.selected),
            mode: self.mode,
            input: self.input@,
            date_input: self.date_input@,
            search_input: self.search_input@,
            margin: self.margin,
            focus_mode: self.focus_mode,
        }
    }
}

/// One more task that passes the test is one more task kept.
proof fn lemma_filter_step(items: Seq<TaskModel>, i: int, test: spec_fn(TaskModel) -> bool)
    requires
        0 <= i < items.len(),
    ensures
        items.take(i + 1).filter(test) == if test(items[i]) {
            items.take(i).filter(test).push(items[i])
        } else {
            items.take(i).filter(test)
        },
{
    reveal(Seq::filter);
    assert(items.take(i + 1).drop_last() =~= items.take(i));
}

/// The task made of what was typed at the moment `now`, where the English
/// parser read `parsed`, under the identifier `id`.
fn make_task(input: &Vec<char>, now: &Moment, parsed: Parsed, id: u64) -> (r: Task)
    requires
        now.wf(),
    ensures
        r@ == new_task(input@, *now, parsed, id),
        task_wf(r@),
{
    let text = string_of(input);
    let (left, due_date) = split_with(text.as_str(), now, parsed);
    let description = if trim(&chars_of(left.as_str())).len() == 0 {
        text
    } else {
        left
    };
    let item = Task {
        id,
        description,
        completed: false,
        priority: Priority::Medium,
        due_date,
        tags: tags(input),
        sub_tasks: Vec::new(),
    };
    assert(sub_models(item.sub_tasks@) =~= Seq::empty());
    assert(sub_ids_of(sub_models(item.sub_tasks@)) =~= Seq::empty());
    item
}

/// The sub-task made of what was typed at the moment `now`, where the English
/// parser read `parsed`, under the identifier `id`.
fn make_sub_task(input: &Vec<char>, now: &Moment, parsed: Parsed, id: u64) -> (r: SubTask)
    requires
        now.wf(),
    ensures
        r@ == new_sub_task(input@, *now, parsed, id),
        due_ok(r@.due_date),
{
    let text = string_of(input);
    let (left, due_date) = split_with(text.as_str(), now, parsed);
    let description = if trim(&chars_of(left.as_str())).len() == 0 {
        text
    } else {
        left
    };
    SubTask {
        id,
        description,
        completed: false,
        priority: Priority::Medium,
        due_date,
        tags: tags(input),
    }
}

impl App {
    /// The tasks that are kept are well-formed: no identifier twice among
    /// them nor among the sub-tasks of one, and every due date of canonical
    /// shape.
    pub open spec fn wf(&self) -> bool {
        self@.wf()
    }

    /// An editor of the tasks that were loaded, mended where they are not
    /// well-formed, with the first selected.
    pub fn new(tasks: Vec<Task>) -> (r: App)
        ensures
            r.wf(),
            r@ == (AppModel {
                tasks: mended(models(tasks@)),
                selected: if mended(models(tasks@)).len() > 0 {
                    Some(0int)
                } else {
                    None
                },
                mode: AppMode::Normal,
                input: Seq::empty(),
                date_input: Seq::empty(),
                search_input: Seq::empty(),
                margin: 1,
                focus_mode: false,
            }),
    {
        let kept = mend(&tasks);
        let selected = if kept.len() > 0 {
            Some(0)
        } else {
            None
        };
        App {
            tasks: kept,
            selected,
            mode: AppMode::Normal,
            input: Vec::new(),
            date_input: Vec::new(),
            search_input: Vec::new(),
            margin: 1,
            focus_mode: false,
        }
    }

    /// The tasks that are kept.
    pub fn tasks(&self) -> (r: &Vec<Task>)
        ensures
            models(r@) == self@.tasks,
    {
        &self.tasks
    }

    /// The selected line of what is shown.
    pub fn selected(&self) -> (r: Option<usize>)
        ensures
            line_of(r) == self@.selected,
    {
        self.selected
    }

    /// The mode.
    pub fn mode(&self) -> (r: AppMode)
        ensures
            r == self@.mode,
    {
        self.mode
    }

    /// What was typed of a new task.
    pub fn input(&self) -> (r: String)
        ensures
            r@ == self@.input,
    {
        string_of(&self.input)
    }

    /// What was typed of a due date.
    pub fn date_input(&self) -> (r: String)
        ensures
            r@ == self@.date_input,
    {
        string_of(&self.date_input)
    }

    /// What was typed of a search word.
    pub fn search_input(&self) -> (r: String)
        ensures
            r@ == self@.search_input,
    {
        string_of(&self.search_input)
    }

    /// The margin round the list.
    pub fn margin(&self) -> (r: u16)
        ensures
            r == self@.margin,
    {
        self.margin
    }

    /// Whether completed tasks are left out of the picture.
    pub fn focus_mode(&self) -> (r: bool)
        ensures
            r == self@.focus_mode,
    {
        self.focus_mode
    }

    /// Makes the margin one less.
    pub fn zoom_in(&mut self)
        ensures
            final(self)@ == old(self)@.zoomed_in(),
    {
        self.margin = if self.margin > 0 {
            self.margin - 1
        } else {
            0
        };
    }

    /// Makes the margin one more.
    pub fn zoom_out(&mut self)
        ensures
            final(self)@ == old(self)@.zoomed_out(),
    {
        self.margin = if self.margin < u16::MAX {
            self.margin + 1
        } else {
            u16::MAX
        };
    }

    /// Copies of the tasks that match the search word; of all where there is none.
    pub fn filter_tasks(&self) -> (r: Vec<Task>)
        ensures
            models(r@) == self@.filtered(),
    {
        if self.search_input.len() == 0 {
            return copy_tasks(&self.tasks);
        }
        let word = string_of(&self.search_input);
        let lower = to_lowercase(word.as_str());
        let needle = chars_of(lower.as_str());
        let ghost all = models(self.tasks@);
        let ghost test = matcher(lowercase(self.search_input@));
        let mut out: Vec<Task> = Vec::new();
        let mut i: usize = 0;
        proof {
            reveal(Seq::filter);
            assert(all.take(0) =~= Seq::empty());
            assert(models(out@) =~= all.take(0).filter(test));
        }
        while i < self.tasks.len()
            invariant
                i <= self.tasks.len(),
                all == models(self.tasks@),
                needle@ == lowercase(self.search_input@),
                test == matcher(lowercase(self.search_input@)),
                models(out@) == all.take(i as int).filter(test),
            decreases self.tasks.len() - i,
        {
            proof {
                lemma_filter_step(all, i as int, test);
            }
            if self.tasks[i].matches(&needle) {
                let ghost before = models(out@);
                out.push(self.tasks[i].copy());
                assert(models(out@) =~= before.push(all[i as int]));
            }
            i += 1;
        }
        assert(all.take(all.len() as int) =~= all);
        out
    }

    /// Copies of the tasks that are shown: in search mode with a search word,
    /// of those that match it; else of all.
    pub fn get_displayed_tasks(&self) -> (r: Vec<Task>)
        ensures
            models(r@) == self@.displayed(),
    {
        match self.mode {
            AppMode::Search => if self.search_input.len() > 0 {
                self.filter_tasks()
            } else {
                copy_tasks(&self.tasks)
            },
            _ => copy_tasks(&self.tasks),
        }
    }

    /// The place, among the tasks that are kept, of the task on the selected line.
    fn target(&self) -> (r: Option<usize>)
        ensures
            line_of(r) == self@.target(),
            r matches Some(at) ==> at < self.tasks.len() && Some(self.tasks[at as int].id)
                == self@.selected_id(),
    {
        match self.selected {
            Some(line) => {
                let shown = self.get_displayed_tasks();
                if line < shown.len() {
                    assert(models(shown@)[line as int].id == shown@[line as int].id);
                    position(&task_ids(&self.tasks), shown[line].id)
                } else {
                    None
                }
            },
            None => None,
        }
    }

    /// Selects the line below, the first after the last.
    pub fn next(&mut self)
        ensures
            final(self)@ == old(self)@.moved_down(),
    {
        let shown = self.get_displayed_tasks().len();
        if shown == 0 {
            return ;
        }
        let line = match self.selected {
            Some(line) => {
                let rest = line % shown;
                proof {
                    let q = line as int / shown as int;
                    lemma_fundamental_div_mod(line as int, shown as int);
                    assert(shown * q == q * shown) by (nonlinear_arith);
                    if rest + 1 == shown {
                        assert((q + 1) * shown == q * shown + shown) by (nonlinear_arith);
                        lemma_fundamental_div_mod_converse(line + 1, shown as int, q + 1, 0);
                    } else {
                        lemma_fundamental_div_mod_converse(line + 1, shown as int, q, rest + 1);
                    }
                }
                if rest + 1 == shown {
                    0
                } else {
                    rest + 1
                }
            },
            None => 0,
        };
        self.selected = Some(line);
    }

    /// Selects the line above, the last before the first.
    pub fn previous(&mut self)
        ensures
            final(self)@ == old(self)@.moved_up(),
    {
        let shown = self.get_displayed_tasks().len();
        if shown == 0 {
            return ;
        }
        let line = match self.selected {
            Some(line) => {
                let rest = line % shown;
                proof {
                    let q = line as int / shown as int;
                    lemma_fundamental_div_mod(line as int, shown as int);
                    assert(shown * q == q * shown) by (nonlinear_arith);
                    if rest == 0 {
                        lemma_fundamental_div_mod_converse(
                            line + shown - 1,
                            shown as int,
                            q,
                            shown - 1,
                        );
                    } else {
                        assert((q + 1) * shown == q * shown + shown) by (nonlinear_arith);
                        lemma_fundamental_div_mod_converse(
                            line + shown - 1,
                            shown as int,
                            q + 1,
                            rest - 1,
                        );
                    }
                }
                if rest == 0 {
                    shown - 1
                } else {
                    rest - 1
                }
            },
            None => 0,
        };
        self.selected = Some(line);
    }

    /// Completes the selected task, or takes its completion back.
    pub fn toggle_completed(&mut self)
        requires
            old(self).wf(),
        ensures
            final(self)@ == old(self)@.toggled(),
            final(self).wf(),
    {
        if let Some(at) = self.target() {
            let done = self.tasks[at].completed;
            self.tasks[at].completed = !done;
            proof {
                let before = old(self)@.tasks;
                let item = TaskModel { completed: !before[at as int].completed, ..before[at as int] };
                assert(models(self.tasks@) =~= before.update(at as int, item));
                lemma_update_keeps_wf(before, at as int, item);
            }
        }
    }

    /// Moves the priority of the selected task one step up, and to `Low` from `High`.
    pub fn cycle_priority(&mut self)
        requires
            old(self).wf(),
        ensures
            final(self)@ == old(self)@.priority_cycled(),
            final(self).wf(),
    {
        if let Some(at) = self.target() {
            let priority = self.tasks[at].priority.next();
            self.tasks[at].priority = priority;
            proof {
                let before = old(self)@.tasks;
                let item = TaskModel { priority: before[at as int].priority.cycled(), ..before[at as int] };
                assert(models(self.tasks@) =~= before.update(at as int, item));
                lemma_update_keeps_wf(before, at as int, item);
            }
        }
    }

    /// Makes what was typed the due date of the selected task, where it is of
    /// canonical shape, and goes back to `Normal` mode.
    pub fn set_due_date(&mut self)
        requires
            old(self).wf(),
        ensures
            final(self)@ == old(self)@.due_date_set(),
            final(self).wf(),
    {
        if let Some(at) = self.target() {
            if is_canonical(&self.date_input) {
                let due = string_of(&self.date_input);
                self.tasks[at].due_date = Some(due);
                self.date_input = Vec::new();
                proof {
                    let before = old(self)@.tasks;
                    let item = TaskModel {
                        due_date: Some(old(self)@.date_input),
                        ..before[at as int]
                    };
                    assert(models(self.tasks@) =~= before.update(at as int, item));
                    lemma_update_keeps_wf(before, at as int, item);
                }
            }
        }
        self.mode = AppMode::Normal;
    }

    /// Deletes the selected task, and moves the selection to a line that is
    /// shown, if one is.
    pub fn delete_task(&mut self)
        requires
            old(self).wf(),
        ensures
            final(self)@ == old(self)@.deleted(),
            final(self).wf(),
    {
        let line = match self.selected {
            Some(line) => line,
            None => { return ; },
        };
        let shown = self.get_displayed_tasks();
        if line >= shown.len() {
            return ;
        }
        assert(models(shown@)[line as int].id == shown@[line as int].id);
        if let Some(at) = position(&task_ids(&self.tasks), shown[line].id) {
            self.tasks.remove(at);
            proof {
                let before = old(self)@.tasks;
                assert(models(self.tasks@) =~= before.remove(at as int));
                lemma_remove_keeps_wf(before, at as int);
            }
        }
        let left = self.get_displayed_tasks().len();
        self.selected = if left > 0 {
            Some(if line < left - 1 {
                line
            } else {
                left - 1
            })
        } else {
            None
        };
    }

    /// Deletes every completed task, and moves the selection to a line that
    /// is shown, if one is.
    pub fn clear_completed(&mut self)
        requires
            old(self).wf(),
        ensures
            final(self)@ == old(self)@.completed_cleared(),
            final(self).wf(),
    {
        let ghost all = models(self.tasks@);
        let mut kept: Vec<Task> = Vec::new();
        let mut i: usize = 0;
        proof {
            reveal(Seq::filter);
            assert(all.take(0) =~= Seq::empty());
            assert(models(kept@) =~= all.take(0).filter(pending()));
        }
        while i < self.tasks.len()
            invariant
                i <= self.tasks.len(),
                all == models(self.tasks@),
                models(kept@) == all.take(i as int).filter(pending()),
            decreases self.tasks.len() - i,
        {
            proof {
                lemma_filter_step(all, i as int, pending());
            }
            if !self.tasks[i].completed {
                let ghost before = models(kept@);
                kept.push(self.tasks[i].copy());
                assert(models(kept@) =~= before.push(all[i as int]));
            }
            i += 1;
        }
        proof {
            assert(all.take(all.len() as int) =~= all);
            lemma_filter_keeps_wf(all, pending());
        }
        self.tasks = kept;
        if let Some(line) = self.selected {
            let left = self.get_displayed_tasks().len();
            self.selected = if left > 0 {
                Some(if line < left - 1 {
                    line
                } else {
                    left - 1
                })
            } else {
                None
            };
        }
    }

    /// Makes a sub-task of the selected task of what was typed, where the
    /// English parser read `parsed` in it.
    fn add_sub_task_with(&mut self, now: &Moment, parsed: Parsed)
        requires
            old(self).wf(),
            now.wf(),
        ensures
            final(self)@ == old(self)@.sub_task_added(*now, parsed),
            final(self).wf(),
    {
        if let Some(at) = self.target() {
            if self.input.len() > 0 {
                let top = largest_of(&sub_task_ids(&self.tasks[at].sub_tasks));
                if top < u64::MAX {
                    let item = make_sub_task(&self.input, now, parsed, top + 1);
                    self.tasks[at].sub_tasks.push(item);
                    proof {
                        let before = old(self)@.tasks;
                        let parent = before[at as int];
                        let grown = TaskModel { sub_tasks: parent.sub_tasks.push(item@), ..parent };
                        assert(sub_models(self.tasks@[at as int].sub_tasks@) =~= parent.sub_tasks.push(
                            item@,
                        ));
                        assert(models(self.tasks@) =~= before.update(at as int, grown));
                        lemma_push_keeps_sub_wf(parent.sub_tasks, item@);
                        lemma_update_keeps_wf(before, at as int, grown);
                    }
                }
            }
        }
        self.input = Vec::new();
        self.mode = AppMode::Normal;
    }

    /// Makes a task of what was typed, where the English parser read `parsed`
    /// in it: a sub-task of the selected task where the mode asks for one.
    /// Nothing is typed any longer, and the mode is `Normal`.
    ///
    /// The task is the last of its list, under the identifier one above the
    /// largest of the list. No task is made of nothing typed, nor where no
    /// identifier is left.
    pub fn add_task_read(&mut self, now: &Moment, parsed: Parsed)
        requires
            old(self).wf(),
            now.wf(),
        ensures
            final(self)@ == old(self)@.task_added(*now, parsed),
            final(self).wf(),
    {
        if self.mode == (AppMode::Insert { sub_task: true }) {
            self.add_sub_task_with(now, parsed);
            return ;
        }
        if self.input.len() > 0 {
            let top = largest_of(&task_ids(&self.tasks));
            if top < u64::MAX {
                let item = make_task(&self.input, now, parsed, top + 1);
                self.tasks.push(item);
                proof {
                    let before = old(self)@.tasks;
                    assert(models(self.tasks@) =~= before.push(item@));
                    lemma_push_keeps_wf(before, item@);
                }
            }
        }
        self.input = Vec::new();
        self.mode = AppMode::Normal;
    }

    /// Whether the editor asks the English parser itself about what was typed.
    pub fn asks_parser_itself(&self) -> (r: bool)
        ensures
            r == english_safe(self@.input),
    {
        is_english_safe(&self.input)
    }

    /// Makes a sub-task of the selected task of what was typed, with the due
    /// date that the English parser or the relative dates read in it, and goes
    /// back to `Normal` mode with nothing typed.
    pub fn add_sub_task(&mut self, now: &Moment)
        requires
            old(self).wf(),
            now.wf(),
            english_safe(old(self)@.input),
        ensures
            final(self)@ == old(self)@.sub_task_added(
                *now,
                english_date(old(self)@.input, *now),
            ),
            final(self).wf(),
    {
        let parsed = parse_english(string_of(&self.input).as_str(), now);
        self.add_sub_task_with(now, parsed);
    }

    /// Makes a task of what was typed, with the due date that the English
    /// parser or the relative dates read in it: a sub-task of the selected
    /// task where the mode asks for one. Nothing is typed any longer, and the
    /// mode is `Normal`.
    pub fn add_task(&mut self, now: &Moment)
        requires
            old(self).wf(),
            now.wf(),
            english_safe(old(self)@.input),
        ensures
            final(self)@ == old(self)@.task_added(*now, english_date(old(self)@.input, *now)),
            final(self).wf(),
    {
        let parsed = parse_english(string_of(&self.input).as_str(), now);
        self.add_task_read(now, parsed);
    }

    /// Does in `Normal` mode what waited in `Confirm` mode.
    pub fn execute_confirm_action(&mut self)
        requires
            old(self).wf(),
        ensures
            final(self)@ == old(self)@.confirmed(),
            final(self).wf(),
    {
        match self.mode {
            AppMode::Confirm { action } => {
                self.mode = AppMode::Normal;
                match action {
                    PendingAction::DeleteSelected => self.delete_task(),
                    PendingAction::ClearCompleted => self.clear_completed(),
                }
            },
            _ => {},
        }
    }

    /// Does what a key asks for in `Normal` mode.
    fn handle_normal_key(&mut self, key: Key)
        requires
            old(self).wf(),
        ensures
            final(self)@ == old(self)@.after_normal_key(key),
            final(self).wf(),
    {
        match key {
            Key::Down => self.next(),
            Key::Up => self.previous(),
            Key::Enter => self.toggle_completed(),
            Key::F(n) => if n == 1 {
                self.mode = AppMode::Help;
            },
            Key::Char(c) => if c == 'a' {
                self.mode = AppMode::Insert { sub_task: false };
            } else if c == 's' {
                self.mode = AppMode::Insert { sub_task: true };
            } else if c == 'd' {
                self.mode = AppMode::Confirm { action: PendingAction::DeleteSelected };
            } else if c == 'C' {
                self.mode = AppMode::Confirm { action: PendingAction::ClearCompleted };
            } else if c == 'p' {
                self.cycle_priority();
            } else if c == 'D' {
                self.mode = AppMode::DateInput;
            } else if c == '/' {
                self.mode = AppMode::Search;
            } else if c == 'f' {
                self.focus_mode = !self.focus_mode;
            } else if c == 'h' {
                self.mode = AppMode::Help;
            } else if c == '+' {
                self.zoom_in();
            } else if c == '-' {
                self.zoom_out();
            },
            _ => {},
        }
    }

    /// Does what a key asks for at the moment `now`, and says what is left to
    /// do to whoever runs the editor.
    pub fn handle_key(&mut self, key: Key, now: &Moment) -> (r: Outcome)
        requires
            old(self).wf(),
            now.wf(),
        ensures
            final(self)@ == old(self)@.after_key(key, *now),
            r == old(self)@.outcome_of(key),
            final(self).wf(),
    {
        match self.mode {
            AppMode::Normal => {
                self.handle_normal_key(key);
                return match key {
                    Key::Char(c) => if c == 'q' {
                        Outcome::Quit
                    } else if c == 't' {
                        Outcome::CycleTheme
                    } else {
                        Outcome::Continue
                    },
                    _ => Outcome::Continue,
                };
            },
            AppMode::Insert { sub_task } => match key {
                Key::Enter => {
                    if !self.asks_parser_itself() {
                        return Outcome::AskParser;
                    }
                    self.add_task(now);
                },
                Key::Char(c) => self.input.push(c),
                Key::Backspace => { self.input.pop(); },
                Key::Esc => { self.mode = AppMode::Normal; },
                _ => {},
            },
            AppMode::DateInput => match key {
                Key::Enter => self.set_due_date(),
                Key::Char(c) => self.date_input.push(c),
                Key::Backspace => { self.date_input.pop(); },
                Key::Esc => { self.mode = AppMode::Normal; },
                _ => {},
            },
            AppMode::Search => match key {
                Key::Enter => { self.mode = AppMode::Normal; },
                Key::Esc => { self.mode = AppMode::Normal; },
                Key::Char(c) => self.search_input.push(c),
                Key::Backspace => { self.search_input.pop(); },
                _ => {},
            },
            AppMode::Confirm { action } => match key {
                Key::Char(c) => if c == 'y' || c == 'Y' {
                    self.execute_confirm_action();
                } else if c == 'n' || c == 'N' {
                    self.mode = AppMode::Normal;
                },
                Key::Esc => { self.mode = AppMode::Normal; },
                _ => {},
            },
            AppMode::Help => match key {
                Key::Esc => { self.mode = AppMode::Normal; },
                Key::F(n) => if n == 1 {
                    self.mode = AppMode::Normal;
                },
                Key::Char(c) => if c == 'h' || c == 'q' {
                    self.mode = AppMode::Normal;
                },
                _ => {},
            },
        }
        Outcome::Continue
    }
}

} // verus!
