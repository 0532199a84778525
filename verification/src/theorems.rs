//! What holds of the editor in every state.

use crate::calendar::{Date, Moment, TimeOfDay};
use crate::due::{is_canonical_due, lemma_due_text_canonical};
use crate::model::{
    description_of, matcher, new_sub_task, new_task, pending, AppMode, AppModel, Key,
    PendingAction,
};
use crate::resolver::{lemma_resolve_valid, resolve, weekday_named};
use crate::text::contains;
use crate::times::time_in;
use crate::guard::english_safe;
use crate::model::Parsed;
use crate::splitter::{english_date, split};
use crate::store::{
    ids_of, is_place_of, largest, lemma_filter_keeps_wf, lemma_largest, lemma_place_of_distinct,
    lemma_push_keeps_sub_wf, lemma_push_keeps_wf, lemma_remove_keeps_wf, lemma_update_keeps_wf,
    place_of, sub_ids_of,
};
use crate::task::TaskModel;
use crate::words::{lemma_trim_end_len, lemma_trim_start_len, lowercase, trim_start};
use vstd::prelude::*;

verus! {

/// Every task that is shown is one of the tasks that are kept, and looking up
/// its identifier finds that very task: an operation on a line of what is
/// shown never misses, and never hits another task.
pub proof fn lemma_shown_task_is_kept(m: AppModel, line: int)
    requires
        m.wf(),
        0 <= line < m.displayed().len(),
    ensures
        place_of(ids_of(m.tasks), m.displayed()[line].id) matches Some(at) && 0 <= at
            < m.tasks.len() && m.tasks[at] == m.displayed()[line],
{
    let shown = m.displayed();
    if shown != m.tasks {
        lemma_filter_keeps_wf(m.tasks, matcher(lowercase(m.search_input)));
    }
    assert(m.tasks.contains(shown[line]));
    let at = choose|at: int| 0 <= at < m.tasks.len() && m.tasks[at] == shown[line];
    assert(ids_of(m.tasks)[at] == shown[line].id);
    lemma_place_of_distinct(ids_of(m.tasks), at);
}

/// Identifiers are stable. When the selected task is deleted, it is the task
/// of the selected line that goes and no other; the tasks that remain are
/// what they were, identifier and all, in their order. A task that is added
/// next comes last, under the identifier one above the largest that remains,
/// which is 1 where none remains.
pub proof fn lemma_identifiers_stable(
    m: AppModel,
    typed: Seq<char>,
    now: Moment,
    parsed: Parsed,
)
    requires
        m.wf(),
        m.selected_id() is Some,
        typed.len() > 0,
        largest(ids_of(m.deleted().tasks)) < u64::MAX,
    ensures
        ({
            let at = m.target()->0;
            let after = m.deleted();
            let added = (AppModel {
                input: typed,
                mode: AppMode::Insert { sub_task: false },
                ..after
            }).task_added(now, parsed);
            &&& m.target() is Some
            &&& 0 <= at < m.tasks.len()
            &&& m.tasks[at] == m.displayed()[m.selected->0]
            &&& after.wf()
            &&& after.tasks.len() == m.tasks.len() - 1
            &&& !ids_of(after.tasks).contains(m.tasks[at].id)
            &&& forall|j: int|
                0 <= j < after.tasks.len() ==> #[trigger] after.tasks[j] == m.tasks[if j < at {
                    j
                } else {
                    j + 1
                }]
            &&& added.tasks == after.tasks.push(
                new_task(typed, now, parsed, (largest(ids_of(after.tasks)) + 1) as u64),
            )
            &&& added.tasks.last().id == largest(ids_of(after.tasks)) + 1
            &&& after.tasks.len() == 0 ==> added.tasks.last().id == 1
        }),
{
    lemma_shown_task_is_kept(m, m.selected->0);
    let at = m.target()->0;
    lemma_remove_keeps_wf(m.tasks, at);
}

/// Every due date that splitting gives is of canonical shape, whatever the
/// English parser read.
pub proof fn lemma_split_is_canonical(
    input: Seq<char>,
    now: Moment,
    parsed: Option<(Date, TimeOfDay)>,
)
    requires
        now.wf(),
    ensures
        split(input, now, parsed).1 matches Some(due) ==> is_canonical_due(due),
{
    lemma_resolve_valid(input, now);
    match parsed {
        Some((date, time)) => {
            if date.valid() && time.valid() {
                lemma_due_text_canonical(date, time);
            }
        },
        None => {},
    }
    match resolve(input, now) {
        Some((date, time, matched)) => {
            lemma_due_text_canonical(date, time);
        },
        None => {},
    }
}

/// A text that names no date is left as it is, with no due date, where the
/// English parser reads none in it: a description from which every date was
/// cut gives no date again.
pub proof fn lemma_no_date_where_none_is_named(text: Seq<char>, now: Moment)
    requires
        !contains(lowercase(text), "today"@),
        !contains(lowercase(text), "tomorrow"@),
        time_in(text) is None,
        weekday_named(lowercase(text)) is None,
    ensures
        split(text, now, None) == (text, None::<Seq<char>>),
{
}

/// A task that is made has a description: what was typed, if not empty, makes
/// a description that is not empty.
pub proof fn lemma_description_not_empty(input: Seq<char>, now: Moment, parsed: Parsed)
    requires
        input.len() > 0,
    ensures
        description_of(input, now, parsed).len() > 0,
{
    let left = split(input, now, parsed).0;
    lemma_trim_start_len(left);
    lemma_trim_end_len(trim_start(left));
}

/// A place that was found is a place of the list.
proof fn lemma_place_in_range(ids: Seq<u64>, id: u64)
    ensures
        place_of(ids, id) matches Some(at) ==> is_place_of(ids, id, at),
{
    if ids.contains(id) {
        let w = choose|i: int| 0 <= i < ids.len() && ids[i] == id;
        lemma_first_place(ids, id, w);
    }
}

/// An identifier that stands at `at` has a first place.
proof fn lemma_first_place(ids: Seq<u64>, id: u64, at: int)
    requires
        0 <= at < ids.len(),
        ids[at] == id,
    ensures
        exists|k: int| is_place_of(ids, id, k),
    decreases at,
{
    if exists|j: int| 0 <= j < at && ids[j] == id {
        let j = choose|j: int| 0 <= j < at && ids[j] == id;
        lemma_first_place(ids, id, j);
    } else {
        assert(is_place_of(ids, id, at));
    }
}

/// The tasks stay well-formed, whatever key comes: no identifier stands
/// twice in a list, and every due date is of canonical shape.
pub proof fn lemma_keys_keep_the_tasks_well_formed(m: AppModel, key: Key, now: Moment)
    requires
        m.wf(),
        now.wf(),
    ensures
        m.after_key(key, now).wf(),
{
    let back = m.in_mode(AppMode::Normal);
    let parsed = english_date(m.input, now);
    lemma_operations_keep_the_tasks_well_formed(m, now, parsed);
    lemma_operations_keep_the_tasks_well_formed(back, now, parsed);
}

/// The tasks stay well-formed under every operation.
pub proof fn lemma_operations_keep_the_tasks_well_formed(
    m: AppModel,
    now: Moment,
    parsed: Parsed,
)
    requires
        m.wf(),
        now.wf(),
    ensures
        m.toggled().wf(),
        m.priority_cycled().wf(),
        m.due_date_set().wf(),
        m.deleted().wf(),
        m.completed_cleared().wf(),
        m.task_added(now, parsed).wf(),
        m.sub_task_added(now, parsed).wf(),
        m.confirmed().wf(),
        m.moved_down().wf(),
        m.moved_up().wf(),
{
    let ids = ids_of(m.tasks);
    lemma_split_is_canonical(m.input, now, parsed);
    match m.target() {
        Some(at) => {
            lemma_place_in_range(ids, m.selected_id()->0);
            let old = m.tasks[at];
            lemma_update_keeps_wf(m.tasks, at, TaskModel { completed: !old.completed, ..old });
            lemma_update_keeps_wf(m.tasks, at, TaskModel { priority: old.priority.cycled(), ..old });
            if is_canonical_due(m.date_input) {
                lemma_update_keeps_wf(m.tasks, at, TaskModel { due_date: Some(m.date_input), ..old });
            }
            lemma_remove_keeps_wf(m.tasks, at);
            let subs = sub_ids_of(old.sub_tasks);
            if m.can_add(subs) {
                let sub = new_sub_task(m.input, now, parsed, (largest(subs) + 1) as u64);
                lemma_largest(subs);
                lemma_push_keeps_sub_wf(old.sub_tasks, sub);
                lemma_update_keeps_wf(
                    m.tasks,
                    at,
                    TaskModel { sub_tasks: old.sub_tasks.push(sub), ..old },
                );
            }
        },
        None => {},
    }
    lemma_filter_keeps_wf(m.tasks, pending());
    if m.can_add(ids) {
        let item = new_task(m.input, now, parsed, (largest(ids) + 1) as u64);
        lemma_largest(ids);
        assert(sub_ids_of(item.sub_tasks) =~= Seq::<u64>::empty());
        lemma_push_keeps_wf(m.tasks, item);
    }
    match m.mode {
        AppMode::Confirm { action } => {
            let back = AppModel { mode: AppMode::Normal, ..m };
            match action {
                PendingAction::DeleteSelected => {
                    match back.target() {
                        Some(at) => {
                            lemma_place_in_range(ids, back.selected_id()->0);
                            lemma_remove_keeps_wf(m.tasks, at);
                        },
                        None => {},
                    }
                },
                PendingAction::ClearCompleted => {},
            }
        },
        _ => {},
    }
}

/// Entering a mode in which something is typed leaves what was typed before
/// as it is, here and in the other two.
pub proof fn lemma_entering_keeps_what_was_typed(m: AppModel, key: Key, now: Moment)
    requires
        m.mode == AppMode::Normal,
    ensures
        m.after_key(key, now).input == m.input,
        m.after_key(key, now).date_input == m.date_input,
        m.after_key(key, now).search_input == m.search_input,
{
}

/// Esc ends every mode but `Normal` in `Normal` mode, with the tasks as they
/// were. A sub-task that was being typed is asked for no longer: the task
/// that is added next from `Normal` mode joins the list itself.
pub proof fn lemma_cancel_returns_to_normal(m: AppModel, now: Moment, parsed: Parsed)
    requires
        m.mode != AppMode::Normal,
    ensures
        m.after_key(Key::Esc, now).mode == AppMode::Normal,
        m.after_key(Key::Esc, now).tasks == m.tasks,
        m.after_key(Key::Esc, now).task_added(now, parsed).tasks == m.tasks_with_new(now, parsed),
{
}

/// Whatever commits what a mode was for ends in `Normal` mode: Enter where a
/// due date or a search word is typed, a yes or a no in `Confirm` mode, and
/// the adding of a task, whoever asked the English parser.
pub proof fn lemma_commit_returns_to_normal(m: AppModel, now: Moment, parsed: Parsed)
    ensures
        m.mode is DateInput || m.mode is Search ==> m.after_key(Key::Enter, now).mode
            == AppMode::Normal,
        m.mode is Insert && english_safe(m.input) ==> m.after_key(Key::Enter, now).mode
            == AppMode::Normal,
        m.task_added(now, parsed).mode == AppMode::Normal,
        m.mode is Confirm ==> m.after_key(Key::Char('y'), now).mode == AppMode::Normal
            && m.after_key(Key::Char('n'), now).mode == AppMode::Normal,
{
}

} // verus!
