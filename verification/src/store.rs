//! The task list: its model, its invariant and its operations.

use vstd::prelude::*;
use chrono::NaiveDateTime;
use crate::clock::now;
use crate::error::{ArgumentIssue, TodoError};
use crate::task::{Task, TaskView};
use crate::text::{is_blank, is_blank_text};

verus! {

/// The tasks of a list in insertion order, and the id that the next new task
/// will get.
#[derive(Debug, PartialEq, Eq)]
pub struct TodoList {
    tasks: Vec<Task>,
    next_id: usize,
}

/// What a `TodoList` stands for in contracts.
pub struct TodoListView {
    pub tasks: Seq<TaskView>,
    pub next_id: nat,
}

/// Holds of every task but the one with the given id.
pub open spec fn other_than(id: nat) -> spec_fn(TaskView) -> bool {
    |t: TaskView| t.id != id
}

/// Holds of the tasks that a listing shows: all of them where completed tasks
/// are included, else the pending ones.
pub open spec fn shown(include_completed: bool) -> spec_fn(TaskView) -> bool {
    |t: TaskView| include_completed || !t.completed
}

impl TodoListView {
    /// The model of the given tasks and counter.
    pub open spec fn of(tasks: Seq<Task>, next_id: nat) -> TodoListView {
        TodoListView { tasks: tasks.map_values(|t: Task| t@), next_id }
    }

    /// The list that holds nothing yet.
    pub open spec fn empty() -> TodoListView {
        TodoListView { tasks: Seq::empty(), next_id: 1 }
    }

    /// Every task is well formed, every id is below `next_id`, and no id
    /// occurs twice.
    pub open spec fn wf(self) -> bool {
        &&& self.next_id >= 1
        &&& forall|i: int|
            0 <= i < self.tasks.len() ==> (#[trigger] self.tasks[i]).wf() && self.tasks[i].id
                < self.next_id
        &&& forall|i: int, j: int|
            #![trigger self.tasks[i], self.tasks[j]]
            0 <= i < j < self.tasks.len() ==> self.tasks[i].id != self.tasks[j].id
    }

    /// Whether some task has the id.
    pub open spec fn contains_id(self, id: nat) -> bool {
        exists|i: int| 0 <= i < self.tasks.len() && (#[trigger] self.tasks[i]).id == id
    }

    /// The list after a task with `title` was added at `now`: the new task
    /// comes last and takes `next_id`, which moves on by one.
    pub open spec fn with_added(self, title: Seq<char>, now: NaiveDateTime) -> TodoListView {
        TodoListView {
            tasks: self.tasks.push(TaskView::fresh(self.next_id, title, now)),
            next_id: self.next_id + 1,
        }
    }

    /// The list after the task `id` was marked completed at `now`.
    pub open spec fn with_completed(self, id: nat, now: NaiveDateTime) -> TodoListView {
        TodoListView {
            tasks: self.tasks.map_values(
                |t: TaskView| if t.id == id { t.finished(now) } else { t },
            ),
            next_id: self.next_id,
        }
    }

    /// The list after the task `id` was deleted: the others stay, in order.
    pub open spec fn without(self, id: nat) -> TodoListView {
        TodoListView { tasks: self.tasks.filter(other_than(id)), next_id: self.next_id }
    }

    /// The tasks that a listing shows, in order: all of them, or the pending
    /// ones only.
    pub open spec fn visible(self, include_completed: bool) -> Seq<TaskView> {
        self.tasks.filter(shown(include_completed))
    }
}

impl View for TodoList {
    type V = TodoListView;

    closed spec fn view(&self) -> TodoListView {
        TodoListView::of(self.tasks@, self.next_id as nat)
    }
}

impl TodoList {
    /// The invariant that every operation keeps.
    pub open spec fn wf(&self) -> bool {
        self@.wf()
    }

    /// An empty list whose first task will get the id 1.
    pub fn new() -> (list: TodoList)
        ensures
            list@ == TodoListView::empty(),
            list.wf(),
    {
        let list = TodoList { tasks: Vec::new(), next_id: 1 };
        assert(list@.tasks =~= Seq::empty());
        list
    }

    /// The list for a file that holds nothing to decode: the empty list
    /// where the file is missing (`None`) or its text is blank, and `None`
    /// where the text has to be decoded.
    pub fn fresh_if_blank(contents: Option<&str>) -> (list: Option<TodoList>)
        ensures
            list is Some <==> (contents matches Some(text) ==> is_blank_text(text@)),
            list matches Some(fresh) ==> fresh@ == TodoListView::empty() && fresh.wf(),
    {
        match contents {
            None => Some(TodoList::new()),
            Some(text) => if is_blank(text) {
                Some(TodoList::new())
            } else {
                None
            },
        }
    }

    /// A list of the given tasks and counter, as read back from storage.
    /// They are accepted exactly when they meet the invariant of
    /// `TodoListView::wf`.
    pub fn from_parts(tasks: Vec<Task>, next_id: usize) -> (result: Result<TodoList, TodoError>)
        ensures
            TodoListView::of(tasks@, next_id as nat).wf() ==> result is Ok && result->Ok_0.wf()
                && result->Ok_0@ == TodoListView::of(tasks@, next_id as nat),
            !TodoListView::of(tasks@, next_id as nat).wf() ==> result is Err
                && result->Err_0 is DeserializationError
                && result->Err_0->DeserializationError_0@ == broken_invariant_reason(),
    {
        if parts_are_well_formed(&tasks, next_id) {
            Ok(TodoList { tasks, next_id })
        } else {
            Err(TodoError::DeserializationError("stored tasks break the list invariant".to_owned()))
        }
    }

    /// The tasks and the counter, for storage.
    pub fn into_parts(self) -> (parts: (Vec<Task>, usize))
        ensures
            TodoListView::of(parts.0@, parts.1 as nat) == self@,
    {
        (self.tasks, self.next_id)
    }

    /// The tasks in insertion order.
    pub fn tasks(&self) -> (tasks: &Vec<Task>)
        ensures
            TodoListView::of(tasks@, self@.next_id) == self@,
    {
        &self.tasks
    }

    /// The id that the next new task will get.
    pub fn next_id(&self) -> (id: usize)
        ensures
            id == self@.next_id,
    {
        self.next_id
    }

    /// Adds a task with the given title, created at `now`, and returns a
    /// copy of it. An empty title is refused.
    pub fn add_task_at(&mut self, title: &str, now: NaiveDateTime) -> (result: Result<
        Task,
        TodoError,
    >)
        requires
            old(self).wf(),
            old(self)@.next_id < usize::MAX,
        ensures
            final(self).wf(),
            title@.len() == 0 ==> result == Err::<Task, TodoError>(
                TodoError::InvalidArgument(ArgumentIssue::EmptyTitle),
            ) && final(self)@ == old(self)@,
            title@.len() > 0 ==> result is Ok && result->Ok_0@ == TaskView::fresh(
                old(self)@.next_id,
                title@,
                now,
            ) && final(self)@ == old(self)@.with_added(title@, now),
    {
        if title.is_empty() {
            return Err(TodoError::InvalidArgument(ArgumentIssue::EmptyTitle));
        }
        let id = self.next_id;
        let task = Task {
            id,
            title: title.to_owned(),
            completed: false,
            created_at: now,
            completed_at: None,
        };
        let copy = task.clone();
        self.next_id = id + 1;
        self.tasks.push(task);
        proof {
            assert(self@.tasks =~= old(self)@.with_added(title@, now).tasks);
        }
        Ok(copy)
    }

    /// Adds a task with the given title, created at the current time, and
    /// returns a copy of it. An empty title is refused.
    pub fn add_task(&mut self, title: &str) -> (result: Result<Task, TodoError>)
        requires
            old(self).wf(),
            old(self)@.next_id < usize::MAX,
        ensures
            final(self).wf(),
            title@.len() == 0 ==> result == Err::<Task, TodoError>(
                TodoError::InvalidArgument(ArgumentIssue::EmptyTitle),
            ) && final(self)@ == old(self)@,
            title@.len() > 0 ==> result is Ok && result->Ok_0@ == TaskView::fresh(
                old(self)@.next_id,
                title@,
                result->Ok_0@.created_at,
            ) && final(self)@ == old(self)@.with_added(title@, result->Ok_0@.created_at),
    {
        let instant = now();
        self.add_task_at(title, instant)
    }

    /// The place of the task `id`, if the list has it.
    fn position(&self, id: usize) -> (place: Option<usize>)
        ensures
            place is Some <==> self@.contains_id(id as nat),
            place matches Some(i) ==> i < self@.tasks.len() && self@.tasks[i as int].id == id,
    {
        let mut i: usize = 0;
        while i < self.tasks.len()
            invariant
                i <= self.tasks.len(),
                forall|k: int| 0 <= k < i ==> (#[trigger] self@.tasks[k]).id != id,
            decreases self.tasks.len() - i,
        {
            if self.tasks[i].id == id {
                return Some(i);
            }
            i += 1;
        }
        None
    }

    /// Marks the task `id` completed at `now`. Completing a task again
    /// succeeds and overwrites its completion time.
    pub fn complete_task_at(&mut self, id: usize, now: NaiveDateTime) -> (result: Result<
        (),
        TodoError,
    >)
        requires
            old(self).wf(),
        ensures
            final(self).wf(),
            !old(self)@.contains_id(id as nat) ==> result == Err::<(), TodoError>(
                TodoError::NotFound(id),
            ) && final(self)@ == old(self)@,
            old(self)@.contains_id(id as nat) ==> result is Ok && final(self)@ == old(
                self,
            )@.with_completed(id as nat, now),
    {
        match self.position(id) {
            None => Err(TodoError::NotFound(id)),
            Some(i) => {
                let task = &mut self.tasks[i];
                task.completed = true;
                task.completed_at = Some(now);
                proof {
                    assert(self@.tasks =~= old(self)@.with_completed(id as nat, now).tasks);
                }
                Ok(())
            },
        }
    }

    /// Marks the task `id` completed at the current time. Completing a task
    /// again succeeds and overwrites its completion time.
    pub fn complete_task(&mut self, id: usize) -> (result: Result<(), TodoError>)
        requires
            old(self).wf(),
        ensures
            final(self).wf(),
            !old(self)@.contains_id(id as nat) ==> result == Err::<(), TodoError>(
                TodoError::NotFound(id),
            ) && final(self)@ == old(self)@,
            old(self)@.contains_id(id as nat) ==> result is Ok && exists|now: NaiveDateTime|
                final(self)@ == #[trigger] old(self)@.with_completed(id as nat, now),
    {
        let instant = now();
        self.complete_task_at(id, instant)
    }

    /// Deletes the task `id`. The other tasks keep their order, and the id
    /// is not given out again.
    pub fn delete_task(&mut self, id: usize) -> (result: Result<(), TodoError>)
        requires
            old(self).wf(),
        ensures
            final(self).wf(),
            !old(self)@.contains_id(id as nat) ==> result == Err::<(), TodoError>(
                TodoError::NotFound(id),
            ) && final(self)@ == old(self)@,
            old(self)@.contains_id(id as nat) ==> result is Ok && final(self)@ == old(
                self,
            )@.without(id as nat),
    {
        match self.position(id) {
            None => Err(TodoError::NotFound(id)),
            Some(i) => {
                self.tasks.remove(i);
                proof {
                    lemma_filter_drops_the_one(old(self)@.tasks, id as nat, i as int);
                    assert(self@.tasks =~= old(self)@.tasks.remove(i as int));
                }
                Ok(())
            },
        }
    }

    /// The tasks in insertion order: all of them if `show_completed` is set,
    /// else those that are not completed.
    pub fn list_tasks(&self, show_completed: bool) -> (listed: Vec<&Task>)
        ensures
            listed@.map_values(|t: &Task| t@) == self@.visible(show_completed),
    {
        let mut listed: Vec<&Task> = Vec::new();
        let mut i: usize = 0;
        proof {
            reveal(Seq::filter);
            assert(self@.tasks.take(0) =~= Seq::empty());
        }
        while i < self.tasks.len()
            invariant
                i <= self.tasks.len(),
                listed@.map_values(|t: &Task| t@) == self@.tasks.take(i as int).filter(
                    shown(show_completed),
                ),
            decreases self.tasks.len() - i,
        {
            let task = &self.tasks[i];
            let ghost before = listed@;
            if show_completed || !task.completed {
                listed.push(task);
            }
            proof {
                reveal(Seq::filter);
                let upto = self@.tasks.take(i as int + 1);
                assert(upto.drop_last() =~= self@.tasks.take(i as int));
                assert(upto.last() == task@);
                if shown(show_completed)(task@) {
                    assert(listed@.map_values(|t: &Task| t@) =~= before.map_values(
                        |t: &Task| t@,
                    ).push(task@));
                }
            }
            i += 1;
        }
        proof {
            assert(self@.tasks.take(i as int) =~= self@.tasks);
        }
        listed
    }
}

/// The text of the error that `TodoList::from_parts` gives.
pub open spec fn broken_invariant_reason() -> Seq<char> {
    "stored tasks break the list invariant"@
}

/// Whether the tasks and the counter meet the invariant of a list.
fn parts_are_well_formed(tasks: &Vec<Task>, next_id: usize) -> (ok: bool)
    ensures
        ok == TodoListView::of(tasks@, next_id as nat).wf(),
{
    let ghost model = TodoListView::of(tasks@, next_id as nat);
    if next_id < 1 {
        return false;
    }
    let mut i: usize = 0;
    while i < tasks.len()
        invariant
            i <= tasks.len(),
            next_id >= 1,
            model == TodoListView::of(tasks@, next_id as nat),
            forall|k: int|
                0 <= k < i ==> (#[trigger] model.tasks[k]).wf() && model.tasks[k].id < next_id,
            forall|a: int, b: int|
                #![trigger model.tasks[a], model.tasks[b]]
                0 <= a < b < i ==> model.tasks[a].id != model.tasks[b].id,
        decreases tasks.len() - i,
    {
        let task = &tasks[i];
        assert(model.tasks[i as int] == task@);
        if !task.is_well_formed() || task.id >= next_id {
            return false;
        }
        let mut j: usize = 0;
        while j < i
            invariant
                j <= i < tasks.len(),
                model == TodoListView::of(tasks@, next_id as nat),
                task == tasks[i as int],
                forall|a: int| 0 <= a < j ==> (#[trigger] model.tasks[a]).id != task.id,
            decreases i - j,
        {
            if tasks[j].id == task.id {
                assert(model.tasks[j as int].id == model.tasks[i as int].id);
                return false;
            }
            j += 1;
        }
        i += 1;
    }
    true
}

/// Where exactly one task has the id, keeping the others is removing that one.
pub proof fn lemma_filter_drops_the_one(tasks: Seq<TaskView>, id: nat, i: int)
    requires
        0 <= i < tasks.len(),
        tasks[i].id == id,
        forall|j: int| 0 <= j < tasks.len() && j != i ==> (#[trigger] tasks[j]).id != id,
    ensures
        tasks.filter(other_than(id)) == tasks.remove(i),
    decreases tasks.len(),
{
    reveal(Seq::filter);
    let rest = tasks.drop_last();
    if i == tasks.len() - 1 {
        lemma_filter_keeps_all(rest, other_than(id));
        assert(tasks.remove(i) =~= rest);
    } else {
        lemma_filter_drops_the_one(rest, id, i);
        assert(tasks.remove(i) =~= rest.remove(i).push(tasks.last()));
    }
}

/// A filter that every element passes changes nothing.
pub proof fn lemma_filter_keeps_all<A>(s: Seq<A>, keep: spec_fn(A) -> bool)
    requires
        forall|j: int| 0 <= j < s.len() ==> keep(#[trigger] s[j]),
    ensures
        s.filter(keep) == s,
    decreases s.len(),
{
    reveal(Seq::filter);
    if s.len() > 0 {
        lemma_filter_keeps_all(s.drop_last(), keep);
        assert(s.drop_last().push(s.last()) =~= s);
    }
}

} // verus!
