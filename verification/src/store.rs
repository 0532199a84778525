//! The identifiers of a list of tasks, and what holds of a list that is kept:
//! no identifier twice in a list, and every due date of canonical shape.

use crate::due::{is_canonical, is_canonical_due};
use crate::task::{
    copy_text, copy_texts, models, sub_models, SubTask, SubTaskModel, Task, TaskModel,
};
use crate::text::chars_of;
use vstd::prelude::*;

verus! {

/// The identifiers of tasks, in the order of the list.
pub open spec fn ids_of(items: Seq<TaskModel>) -> Seq<u64> {
    Seq::new(items.len(), |i: int| items[i].id)
}

/// The identifiers of sub-tasks, in the order of the list.
pub open spec fn sub_ids_of(items: Seq<SubTaskModel>) -> Seq<u64> {
    Seq::new(items.len(), |i: int| items[i].id)
}

/// No identifier stands twice.
pub open spec fn distinct(ids: Seq<u64>) -> bool {
    forall|i: int, j: int| 0 <= i < j < ids.len() ==> ids[i] != ids[j]
}

/// The largest of the identifiers, 0 where there is none.
pub open spec fn largest(ids: Seq<u64>) -> int
    decreases ids.len(),
{
    if ids.len() == 0 {
        0
    } else if largest(ids.drop_last()) >= ids.last() {
        largest(ids.drop_last())
    } else {
        ids.last() as int
    }
}

/// `at` is the first place of `item`.
pub open spec fn is_place_of<A>(items: Seq<A>, item: A, at: int) -> bool {
    &&& 0 <= at < items.len()
    &&& items[at] == item
    &&& forall|j: int| 0 <= j < at ==> items[j] != item
}

/// The first place of `item` among `items`.
pub open spec fn place_of<A>(items: Seq<A>, item: A) -> Option<int> {
    if items.contains(item) {
        Some(choose|at: int| is_place_of(items, item, at))
    } else {
        None
    }
}

/// A due date is absent or of canonical shape.
pub open spec fn due_ok(due: Option<Seq<char>>) -> bool {
    due matches Some(text) ==> is_canonical_due(text)
}

/// The sub-tasks have distinct identifiers and due dates of canonical shape.
pub open spec fn sub_tasks_wf(items: Seq<SubTaskModel>) -> bool {
    &&& distinct(sub_ids_of(items))
    &&& forall|i: int| 0 <= i < items.len() ==> due_ok(#[trigger] items[i].due_date)
}

/// A task with a due date of canonical shape and well-formed sub-tasks.
pub open spec fn task_wf(item: TaskModel) -> bool {
    due_ok(item.due_date) && sub_tasks_wf(item.sub_tasks)
}

/// The tasks have distinct identifiers, and each is well-formed.
pub open spec fn store_wf(items: Seq<TaskModel>) -> bool {
    &&& distinct(ids_of(items))
    &&& forall|i: int| 0 <= i < items.len() ==> task_wf(#[trigger] items[i])
}

/// A due date of canonical shape, or none.
pub open spec fn mended_due(due: Option<Seq<char>>) -> Option<Seq<char>> {
    if due_ok(due) {
        due
    } else {
        None
    }
}

/// The sub-task with a due date only if it is of canonical shape.
pub open spec fn mended_sub(item: SubTaskModel) -> SubTaskModel {
    SubTaskModel { due_date: mended_due(item.due_date), ..item }
}

/// The sub-tasks mended: of those with one identifier the first is kept, and
/// a due date that is not of canonical shape is dropped.
pub open spec fn mended_subs(items: Seq<SubTaskModel>) -> Seq<SubTaskModel>
    decreases items.len(),
{
    if items.len() == 0 {
        items
    } else {
        let front = mended_subs(items.drop_last());
        if sub_ids_of(front).contains(items.last().id) {
            front
        } else {
            front.push(mended_sub(items.last()))
        }
    }
}

/// The task with a due date only if it is of canonical shape, and with its
/// sub-tasks mended.
pub open spec fn mended_task(item: TaskModel) -> TaskModel {
    TaskModel {
        due_date: mended_due(item.due_date),
        sub_tasks: mended_subs(item.sub_tasks),
        ..item
    }
}

/// The tasks mended: of those with one identifier the first is kept, and each
/// that is kept is mended. Nothing else is lost, and a well-formed list is
/// left as it is.
pub open spec fn mended(items: Seq<TaskModel>) -> Seq<TaskModel>
    decreases items.len(),
{
    if items.len() == 0 {
        items
    } else {
        let front = mended(items.drop_last());
        if ids_of(front).contains(items.last().id) {
            front
        } else {
            front.push(mended_task(items.last()))
        }
    }
}

/// Mended sub-tasks are well-formed, and well-formed sub-tasks are mended already.
pub proof fn lemma_mended_subs(items: Seq<SubTaskModel>)
    ensures
        sub_tasks_wf(mended_subs(items)),
        sub_tasks_wf(items) ==> mended_subs(items) == items,
    decreases items.len(),
{
    if items.len() > 0 {
        let rest = items.drop_last();
        lemma_mended_subs(rest);
        let front = mended_subs(rest);
        let last = items.last();
        if !sub_ids_of(front).contains(last.id) {
            let all = front.push(mended_sub(last));
            assert(sub_ids_of(all) =~= sub_ids_of(front).push(last.id));
            assert forall|i: int, j: int| 0 <= i < j < all.len() implies sub_ids_of(all)[i]
                != sub_ids_of(all)[j] by {
                if j < front.len() {
                    assert(sub_ids_of(front)[i] != sub_ids_of(front)[j]);
                } else {
                    assert(sub_ids_of(front)[i] != last.id);
                }
            }
            assert forall|i: int| 0 <= i < all.len() implies due_ok(
                #[trigger] all[i].due_date,
            ) by {
                if i < front.len() {
                    assert(due_ok(front[i].due_date));
                }
            }
        }
        if sub_tasks_wf(items) {
            assert(sub_ids_of(rest) =~= sub_ids_of(items).drop_last());
            assert forall|i: int| 0 <= i < rest.len() implies due_ok(
                #[trigger] rest[i].due_date,
            ) by {
                assert(due_ok(items[i].due_date));
            }
            assert(front == rest);
            assert(!sub_ids_of(rest).contains(last.id)) by {
                assert forall|i: int| 0 <= i < rest.len() implies sub_ids_of(rest)[i]
                    != last.id by {
                    assert(sub_ids_of(items)[i] != sub_ids_of(items)[items.len() - 1]);
                }
            }
            assert(due_ok(items[items.len() - 1].due_date));
            assert(mended_sub(last) == last);
            assert(rest.push(last) =~= items);
        }
    }
}

/// Mended tasks are well-formed, and well-formed tasks are mended already.
pub proof fn lemma_mended(items: Seq<TaskModel>)
    ensures
        store_wf(mended(items)),
        store_wf(items) ==> mended(items) == items,
    decreases items.len(),
{
    if items.len() > 0 {
        let rest = items.drop_last();
        lemma_mended(rest);
        let front = mended(rest);
        let last = items.last();
        lemma_mended_subs(last.sub_tasks);
        if !ids_of(front).contains(last.id) {
            let all = front.push(mended_task(last));
            assert(ids_of(all) =~= ids_of(front).push(last.id));
            assert forall|i: int, j: int| 0 <= i < j < all.len() implies ids_of(all)[i] != ids_of(
                all,
            )[j] by {
                if j < front.len() {
                    assert(ids_of(front)[i] != ids_of(front)[j]);
                } else {
                    assert(ids_of(front)[i] != last.id);
                }
            }
            assert forall|i: int| 0 <= i < all.len() implies task_wf(#[trigger] all[i]) by {
                if i < front.len() {
                    assert(task_wf(front[i]));
                }
            }
        }
        if store_wf(items) {
            assert(ids_of(rest) =~= ids_of(items).drop_last());
            assert forall|i: int| 0 <= i < rest.len() implies task_wf(#[trigger] rest[i]) by {
                assert(task_wf(items[i]));
            }
            assert(front == rest);
            assert(!ids_of(rest).contains(last.id)) by {
                assert forall|i: int| 0 <= i < rest.len() implies ids_of(rest)[i] != last.id by {
                    assert(ids_of(items)[i] != ids_of(items)[items.len() - 1]);
                }
            }
            assert(task_wf(items[items.len() - 1]));
            assert(mended_task(last) == last);
            assert(rest.push(last) =~= items);
        }
    }
}

/// The largest identifier is at least each identifier, and is one of them
/// unless it is 0.
pub proof fn lemma_largest(ids: Seq<u64>)
    ensures
        forall|i: int| 0 <= i < ids.len() ==> ids[i] <= largest(ids),
        0 <= largest(ids) <= u64::MAX,
        largest(ids) == 0 || ids.contains(largest(ids) as u64),
    decreases ids.len(),
{
    if ids.len() > 0 {
        let front = ids.drop_last();
        lemma_largest(front);
        assert forall|i: int| 0 <= i < ids.len() implies ids[i] <= largest(ids) by {
            if i < front.len() {
                assert(front[i] == ids[i]);
            }
        }
        if largest(front) >= ids.last() {
            if largest(front) != 0 {
                let w = choose|i: int| 0 <= i < front.len() && front[i] == largest(front) as u64;
                assert(ids[w] == largest(ids) as u64);
            }
        } else {
            assert(ids[ids.len() - 1] == largest(ids) as u64);
        }
    }
}

/// An identifier above the largest can join the list.
pub proof fn lemma_push_above_distinct(ids: Seq<u64>, id: u64)
    requires
        distinct(ids),
        id > largest(ids),
    ensures
        distinct(ids.push(id)),
{
    lemma_largest(ids);
}

/// A first place is the place.
pub proof fn lemma_place_of_is<A>(items: Seq<A>, item: A, at: int)
    requires
        is_place_of(items, item, at),
    ensures
        place_of(items, item) == Some(at),
{
    assert(items.contains(item));
    let chosen = choose|k: int| is_place_of(items, item, k);
    if chosen < at {
        assert(items[chosen] != item);
    } else if at < chosen {
        assert(items[at] != item);
    }
}

/// Among distinct identifiers, the place of the one at `at` is `at`.
pub proof fn lemma_place_of_distinct(ids: Seq<u64>, at: int)
    requires
        distinct(ids),
        0 <= at < ids.len(),
    ensures
        place_of(ids, ids[at]) == Some(at),
{
    lemma_place_of_is(ids, ids[at], at);
}

/// A task replaced by a well-formed one of the same identifier leaves the
/// list well-formed.
pub proof fn lemma_update_keeps_wf(items: Seq<TaskModel>, at: int, item: TaskModel)
    requires
        store_wf(items),
        0 <= at < items.len(),
        item.id == items[at].id,
        task_wf(item),
    ensures
        store_wf(items.update(at, item)),
        ids_of(items.update(at, item)) == ids_of(items),
{
    assert(ids_of(items.update(at, item)) =~= ids_of(items));
}

/// A list without one of its tasks is well-formed still.
pub proof fn lemma_remove_keeps_wf(items: Seq<TaskModel>, at: int)
    requires
        store_wf(items),
        0 <= at < items.len(),
    ensures
        store_wf(items.remove(at)),
        !ids_of(items.remove(at)).contains(items[at].id),
{
    let left = items.remove(at);
    let ids = ids_of(items);
    assert forall|i: int, j: int| 0 <= i < j < left.len() implies ids_of(left)[i] != ids_of(
        left,
    )[j] by {
        let a = if i < at {
            i
        } else {
            i + 1
        };
        let b = if j < at {
            j
        } else {
            j + 1
        };
        assert(ids[a] != ids[b]);
    }
    assert forall|i: int| 0 <= i < left.len() implies task_wf(#[trigger] left[i]) by {
        let a = if i < at {
            i
        } else {
            i + 1
        };
        assert(task_wf(items[a]));
    }
    assert forall|i: int| 0 <= i < left.len() implies ids_of(left)[i] != items[at].id by {
        let a = if i < at {
            i
        } else {
            i + 1
        };
        if a < at {
            assert(ids[a] != ids[at]);
        } else {
            assert(ids[at] != ids[a]);
        }
    }
}

/// A well-formed task under an identifier above the largest can join the list.
pub proof fn lemma_push_keeps_wf(items: Seq<TaskModel>, item: TaskModel)
    requires
        store_wf(items),
        item.id > largest(ids_of(items)),
        task_wf(item),
    ensures
        store_wf(items.push(item)),
{
    lemma_push_above_distinct(ids_of(items), item.id);
    assert(ids_of(items.push(item)) =~= ids_of(items).push(item.id));
}

/// A sub-task with a due date of canonical shape, under an identifier above
/// the largest, can join the sub-tasks.
pub proof fn lemma_push_keeps_sub_wf(items: Seq<SubTaskModel>, item: SubTaskModel)
    requires
        sub_tasks_wf(items),
        item.id > largest(sub_ids_of(items)),
        due_ok(item.due_date),
    ensures
        sub_tasks_wf(items.push(item)),
{
    lemma_push_above_distinct(sub_ids_of(items), item.id);
    assert(sub_ids_of(items.push(item)) =~= sub_ids_of(items).push(item.id));
}

/// The tasks of a well-formed list that pass a test make a well-formed list.
pub proof fn lemma_filter_keeps_wf(items: Seq<TaskModel>, test: spec_fn(TaskModel) -> bool)
    requires
        store_wf(items),
    ensures
        store_wf(items.filter(test)),
        forall|i: int|
            0 <= i < items.filter(test).len() ==> items.contains(#[trigger] items.filter(test)[i]),
    decreases items.len(),
{
    reveal(Seq::filter);
    if items.len() > 0 {
        let front = items.drop_last();
        let last = items.last();
        assert(store_wf(front)) by {
            assert(ids_of(front) =~= ids_of(items).drop_last());
            assert forall|i: int| 0 <= i < front.len() implies task_wf(#[trigger] front[i]) by {
                assert(task_wf(items[i]));
            }
        }
        lemma_filter_keeps_wf(front, test);
        let kept = front.filter(test);
        assert forall|i: int| 0 <= i < kept.len() implies items.contains(#[trigger] kept[i])
            && kept[i].id != last.id by {
            assert(front.contains(kept[i]));
            let w = choose|w: int| 0 <= w < front.len() && front[w] == kept[i];
            assert(items[w] == kept[i]);
            assert(ids_of(items)[w] != ids_of(items)[items.len() - 1]);
        }
        if test(last) {
            let all = kept.push(last);
            assert(items[items.len() - 1] == last);
            assert(task_wf(items[items.len() - 1]));
            assert forall|i: int, j: int| 0 <= i < j < all.len() implies ids_of(all)[i] != ids_of(
                all,
            )[j] by {
                if j < kept.len() {
                    assert(ids_of(kept)[i] != ids_of(kept)[j]);
                } else {
                    assert(kept[i].id != last.id);
                }
            }
            assert forall|i: int| 0 <= i < all.len() implies task_wf(#[trigger] all[i])
                && items.contains(all[i]) by {
                if i < kept.len() {
                    assert(task_wf(kept[i]));
                    assert(items.contains(kept[i]));
                }
            }
        }
    }
}

/// The identifiers of the tasks.
pub fn task_ids(items: &Vec<Task>) -> (r: Vec<u64>)
    ensures
        r@ == ids_of(models(items@)),
{
    let mut out: Vec<u64> = Vec::new();
    let mut i: usize = 0;
    while i < items.len()
        invariant
            i <= items.len(),
            out.len() == i,
            forall|j: int| 0 <= j < i ==> out@[j] == items@[j].id,
        decreases items.len() - i,
    {
        out.push(items[i].id);
        i += 1;
    }
    assert(out@ =~= ids_of(models(items@)));
    out
}

/// The identifiers of the sub-tasks.
pub fn sub_task_ids(items: &Vec<SubTask>) -> (r: Vec<u64>)
    ensures
        r@ == sub_ids_of(sub_models(items@)),
{
    let mut out: Vec<u64> = Vec::new();
    let mut i: usize = 0;
    while i < items.len()
        invariant
            i <= items.len(),
            out.len() == i,
            forall|j: int| 0 <= j < i ==> out@[j] == items@[j].id,
        decreases items.len() - i,
    {
        out.push(items[i].id);
        i += 1;
    }
    assert(out@ =~= sub_ids_of(sub_models(items@)));
    out
}

/// The largest of the identifiers, 0 where there is none.
pub fn largest_of(ids: &Vec<u64>) -> (r: u64)
    ensures
        r == largest(ids@),
{
    let mut best: u64 = 0;
    let mut i: usize = 0;
    assert(ids@.take(0) =~= Seq::<u64>::empty());
    while i < ids.len()
        invariant
            i <= ids.len(),
            best == largest(ids@.take(i as int)),
        decreases ids.len() - i,
    {
        assert(ids@.take(i + 1).drop_last() =~= ids@.take(i as int));
        if ids[i] > best {
            best = ids[i];
        }
        i += 1;
    }
    assert(ids@.take(ids@.len() as int) =~= ids@);
    best
}

/// The first place of `id` among `ids`.
pub fn position(ids: &Vec<u64>, id: u64) -> (r: Option<usize>)
    ensures
        match r {
            Some(at) => is_place_of(ids@, id, at as int) && place_of(ids@, id) == Some(at as int),
            None => !ids@.contains(id) && place_of(ids@, id) is None,
        },
{
    let mut i: usize = 0;
    while i < ids.len()
        invariant
            i <= ids.len(),
            forall|j: int| 0 <= j < i ==> ids@[j] != id,
        decreases ids.len() - i,
    {
        if ids[i] == id {
            proof {
                lemma_place_of_is(ids@, id, i as int);
            }
            return Some(i);
        }
        i += 1;
    }
    None
}

/// Whether no identifier stands twice.
pub fn all_distinct(ids: &Vec<u64>) -> (r: bool)
    ensures
        r == distinct(ids@),
{
    let mut j: usize = 0;
    while j < ids.len()
        invariant
            j <= ids.len(),
            forall|a: int, b: int| 0 <= a < b < j ==> ids@[a] != ids@[b],
        decreases ids.len() - j,
    {
        let mut i: usize = 0;
        while i < j
            invariant
                i <= j < ids.len(),
                forall|a: int| 0 <= a < i ==> ids@[a] != ids@[j as int],
            decreases j - i,
        {
            if ids[i] == ids[j] {
                return false;
            }
            i += 1;
        }
        j += 1;
    }
    true
}

/// Whether a due date is absent or of canonical shape.
pub fn due_is_ok(due: &Option<String>) -> (r: bool)
    ensures
        r == due_ok(due.deep_view()),
{
    match due {
        Some(text) => is_canonical(&chars_of(text.as_str())),
        None => true,
    }
}

/// Whether the sub-tasks are well-formed.
pub fn sub_tasks_ok(items: &Vec<SubTask>) -> (r: bool)
    ensures
        r == sub_tasks_wf(sub_models(items@)),
{
    if !all_distinct(&sub_task_ids(items)) {
        return false;
    }
    let mut i: usize = 0;
    while i < items.len()
        invariant
            i <= items.len(),
            forall|j: int| 0 <= j < i ==> due_ok(#[trigger] sub_models(items@)[j].due_date),
        decreases items.len() - i,
    {
        if !due_is_ok(&items[i].due_date) {
            assert(!due_ok(sub_models(items@)[i as int].due_date));
            return false;
        }
        i += 1;
    }
    true
}

/// Whether the tasks are well-formed: what a list must be to be kept.
pub fn store_ok(items: &Vec<Task>) -> (r: bool)
    ensures
        r == store_wf(models(items@)),
{
    if !all_distinct(&task_ids(items)) {
        return false;
    }
    let mut i: usize = 0;
    while i < items.len()
        invariant
            i <= items.len(),
            forall|j: int| 0 <= j < i ==> task_wf(#[trigger] models(items@)[j]),
        decreases items.len() - i,
    {
        if !due_is_ok(&items[i].due_date) || !sub_tasks_ok(&items[i].sub_tasks) {
            assert(!task_wf(models(items@)[i as int]));
            return false;
        }
        i += 1;
    }
    true
}

/// The sub-tasks mended.
pub fn mend_sub_tasks(items: &Vec<SubTask>) -> (r: Vec<SubTask>)
    ensures
        sub_models(r@) == mended_subs(sub_models(items@)),
{
    let ghost all = sub_models(items@);
    let mut out: Vec<SubTask> = Vec::new();
    let mut i: usize = 0;
    assert(all.take(0) =~= Seq::empty());
    assert(sub_models(out@) =~= mended_subs(all.take(0)));
    while i < items.len()
        invariant
            i <= items.len(),
            all == sub_models(items@),
            sub_models(out@) == mended_subs(all.take(i as int)),
        decreases items.len() - i,
    {
        assert(all.take(i + 1).drop_last() =~= all.take(i as int));
        assert(all.take(i + 1).last() == all[i as int]);
        if position(&sub_task_ids(&out), items[i].id).is_none() {
            let mut item = items[i].copy();
            if !due_is_ok(&item.due_date) {
                item.due_date = None;
            }
            let ghost before = sub_models(out@);
            out.push(item);
            assert(sub_models(out@) =~= before.push(mended_sub(all[i as int])));
        }
        i += 1;
    }
    assert(all.take(all.len() as int) =~= all);
    out
}

/// The tasks mended: what is kept of a list that was loaded.
pub fn mend(items: &Vec<Task>) -> (r: Vec<Task>)
    ensures
        models(r@) == mended(models(items@)),
        store_wf(models(r@)),
{
    let ghost all = models(items@);
    let mut out: Vec<Task> = Vec::new();
    let mut i: usize = 0;
    assert(all.take(0) =~= Seq::empty());
    assert(models(out@) =~= mended(all.take(0)));
    while i < items.len()
        invariant
            i <= items.len(),
            all == models(items@),
            models(out@) == mended(all.take(i as int)),
        decreases items.len() - i,
    {
        assert(all.take(i + 1).drop_last() =~= all.take(i as int));
        assert(all.take(i + 1).last() == all[i as int]);
        if position(&task_ids(&out), items[i].id).is_none() {
            let due_date = if due_is_ok(&items[i].due_date) {
                copy_text(&items[i].due_date)
            } else {
                None
            };
            let item = Task {
                id: items[i].id,
                description: items[i].description.clone(),
                completed: items[i].completed,
                priority: items[i].priority,
                due_date,
                tags: copy_texts(&items[i].tags),
                sub_tasks: mend_sub_tasks(&items[i].sub_tasks),
            };
            let ghost before = models(out@);
            out.push(item);
            assert(models(out@) =~= before.push(mended_task(all[i as int])));
        }
        i += 1;
    }
    proof {
        assert(all.take(all.len() as int) =~= all);
        lemma_mended(all);
    }
    out
}

} // verus!
