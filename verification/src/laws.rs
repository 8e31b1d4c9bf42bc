//! What holds of the operations on a list, whatever the list and the
//! arguments.

use vstd::prelude::*;
use chrono::NaiveDateTime;
use crate::store::{lemma_filter_drops_the_one, lemma_filter_keeps_all, shown, TodoListView};
use crate::task::TaskView;

verus! {

/// The list after `add` was called with each of the titles in turn, the
/// `k`-th call at `times[k]`. A call with an empty title is refused and
/// leaves the list as it is.
pub open spec fn after_adds(
    list: TodoListView,
    titles: Seq<Seq<char>>,
    times: Seq<NaiveDateTime>,
) -> TodoListView
    decreases titles.len(),
{
    if titles.len() == 0 {
        list
    } else {
        let before = after_adds(list, titles.drop_last(), times.drop_last());
        if titles.last().len() > 0 {
            before.with_added(titles.last(), times.last())
        } else {
            before
        }
    }
}

/// Whatever titles `add` is called with, one call after another: the tasks
/// that were there stay where and as they were, the new tasks follow them,
/// and the ids of the new tasks are strictly increasing, from `next_id` on.
/// The list stays well formed, so no id occurs twice in it.
pub proof fn lemma_added_ids_increase(
    list: TodoListView,
    titles: Seq<Seq<char>>,
    times: Seq<NaiveDateTime>,
)
    requires
        list.wf(),
        times.len() == titles.len(),
    ensures
        after_adds(list, titles, times).wf(),
        list.tasks.len() <= after_adds(list, titles, times).tasks.len() <= list.tasks.len()
            + titles.len(),
        after_adds(list, titles, times).next_id - list.next_id == after_adds(
            list,
            titles,
            times,
        ).tasks.len() - list.tasks.len(),
        forall|i: int|
            0 <= i < list.tasks.len() ==> (#[trigger] after_adds(list, titles, times).tasks[i])
                == list.tasks[i],
        forall|i: int|
            list.tasks.len() <= i < after_adds(list, titles, times).tasks.len() ==> (
            #[trigger] after_adds(list, titles, times).tasks[i]).id == list.next_id + (i
                - list.tasks.len()),
        forall|a: int, b: int|
            #![trigger after_adds(list, titles, times).tasks[a], after_adds(list, titles, times).tasks[b]]
            list.tasks.len() <= a < b < after_adds(list, titles, times).tasks.len() ==> after_adds(
                list,
                titles,
                times,
            ).tasks[a].id < after_adds(list, titles, times).tasks[b].id,
    decreases titles.len(),
{
    if titles.len() > 0 {
        lemma_added_ids_increase(list, titles.drop_last(), times.drop_last());
    }
}

/// Where no title is empty, every call adds its task: the `k`-th new task
/// has the `k`-th title and time, and the id `next_id + k`.
pub proof fn lemma_each_add_appends(
    list: TodoListView,
    titles: Seq<Seq<char>>,
    times: Seq<NaiveDateTime>,
)
    requires
        times.len() == titles.len(),
        forall|k: int| 0 <= k < titles.len() ==> (#[trigger] titles[k]).len() > 0,
    ensures
        after_adds(list, titles, times).next_id == list.next_id + titles.len(),
        after_adds(list, titles, times).tasks.len() == list.tasks.len() + titles.len(),
        forall|k: int|
            0 <= k < titles.len() ==> (#[trigger] after_adds(
                list,
                titles,
                times,
            ).tasks[list.tasks.len() + k]) == TaskView::fresh(
                list.next_id + k as nat,
                titles[k],
                times[k],
            ),
    decreases titles.len(),
{
    if titles.len() > 0 {
        lemma_each_add_appends(list, titles.drop_last(), times.drop_last());
    }
}

/// After a task was completed, the listing of pending tasks does not show
/// it, and the listing of all tasks is the whole list, in which the task is
/// completed and carries the completion time.
pub proof fn lemma_completed_task_is_listed_as_done(
    list: TodoListView,
    id: nat,
    now: NaiveDateTime,
)
    requires
        list.wf(),
        list.contains_id(id),
    ensures
        forall|k: int|
            0 <= k < list.with_completed(id, now).visible(false).len() ==> (
            #[trigger] list.with_completed(id, now).visible(false)[k]).id != id,
        list.with_completed(id, now).visible(true) == list.with_completed(id, now).tasks,
        exists|i: int|
            0 <= i < list.with_completed(id, now).visible(true).len() && {
                let listed = #[trigger] list.with_completed(id, now).visible(true)[i];
                &&& listed.id == id
                &&& listed.completed
                &&& listed.completed_at == Some(now)
                &&& listed == list.tasks[i].finished(now)
            },
{
    let after = list.with_completed(id, now);
    let pending = after.visible(false);
    assert forall|k: int| 0 <= k < pending.len() implies (#[trigger] pending[k]).id != id by {
        after.tasks.lemma_filter_pred(shown(false), k);
        after.tasks.lemma_filter_contains_rev(shown(false), pending[k]);
        let j = choose|j: int| 0 <= j < after.tasks.len() && after.tasks[j] == pending[k];
        assert(after.tasks[j] == pending[k]);
    }
    lemma_filter_keeps_all(after.tasks, shown(true));
    let i = choose|i: int| 0 <= i < list.tasks.len() && (#[trigger] list.tasks[i]).id == id;
    assert(after.visible(true)[i] == list.tasks[i].finished(now));
    assert(after.visible(true)[i].id == id);
}

/// Completing a task that is completed already overwrites its completion
/// time and changes nothing else.
pub proof fn lemma_completing_again_overwrites(
    list: TodoListView,
    id: nat,
    first: NaiveDateTime,
    second: NaiveDateTime,
)
    ensures
        list.with_completed(id, first).with_completed(id, second) == list.with_completed(
            id,
            second,
        ),
{
    assert(list.with_completed(id, first).with_completed(id, second).tasks
        =~= list.with_completed(id, second).tasks);
}

/// Deleting a task removes that task and no other: the list is one task
/// shorter, the id is gone, every other task is still there, unchanged and
/// in the same order, and `next_id` stays, so the id is not given out again.
pub proof fn lemma_delete_removes_exactly_one(list: TodoListView, id: nat)
    requires
        list.wf(),
        list.contains_id(id),
    ensures
        list.without(id).wf(),
        list.without(id).next_id == list.next_id,
        id < list.next_id,
        list.without(id).tasks.len() == list.tasks.len() - 1,
        !list.without(id).contains_id(id),
        exists|i: int|
            0 <= i < list.tasks.len() && (#[trigger] list.tasks[i]).id == id && list.without(
                id,
            ).tasks == list.tasks.remove(i),
{
    let i = choose|i: int| 0 <= i < list.tasks.len() && (#[trigger] list.tasks[i]).id == id;
    lemma_filter_drops_the_one(list.tasks, id, i);
    assert(list.without(id).tasks == list.tasks.remove(i));
}

} // verus!
