//! What an action does to a list, and what it reports.

use vstd::prelude::*;
use chrono::NaiveDateTime;
use crate::clock::now;
use crate::command::{Action, ActionView};
use crate::error::{ArgumentIssue, TodoError};
use crate::store::{TodoList, TodoListView};
use crate::task::{Task, TaskView};

verus! {

/// What an action that succeeded has to report.
#[derive(Debug, PartialEq, Eq)]
pub enum Outcome {
    /// The task that was added.
    Added(Task),
    /// The id of the task that was completed.
    Completed(usize),
    /// The id of the task that was deleted.
    Deleted(usize),
    /// The tasks to show, in order.
    Listed(Vec<Task>),
}

/// What an `Outcome` stands for in contracts.
pub enum OutcomeView {
    Added(TaskView),
    Completed(usize),
    Deleted(usize),
    Listed(Seq<TaskView>),
}

impl View for Outcome {
    type V = OutcomeView;

    open spec fn view(&self) -> OutcomeView {
        match self {
            Outcome::Added(task) => OutcomeView::Added(task@),
            Outcome::Completed(id) => OutcomeView::Completed(*id),
            Outcome::Deleted(id) => OutcomeView::Deleted(*id),
            Outcome::Listed(tasks) => OutcomeView::Listed(tasks@.map_values(|t: Task| t@)),
        }
    }
}

/// The list after the action was taken at `now`. An action that fails, and
/// a listing, leave the list as it is.
pub open spec fn list_after(list: TodoListView, action: ActionView, now: NaiveDateTime) -> TodoListView {
    match action {
        ActionView::Add(title) => if title.len() > 0 {
            list.with_added(title, now)
        } else {
            list
        },
        ActionView::Complete(id) => if list.contains_id(id as nat) {
            list.with_completed(id as nat, now)
        } else {
            list
        },
        ActionView::Delete(id) => if list.contains_id(id as nat) {
            list.without(id as nat)
        } else {
            list
        },
        ActionView::List => list,
        ActionView::ListAll => list,
    }
}

/// What the action reports when it is taken on `list` at `now`.
pub open spec fn report_of(list: TodoListView, action: ActionView, now: NaiveDateTime) -> Result<
    OutcomeView,
    TodoError,
> {
    match action {
        ActionView::Add(title) => if title.len() > 0 {
            Ok(OutcomeView::Added(TaskView::fresh(list.next_id, title, now)))
        } else {
            Err(TodoError::InvalidArgument(ArgumentIssue::EmptyTitle))
        },
        ActionView::Complete(id) => if list.contains_id(id as nat) {
            Ok(OutcomeView::Completed(id))
        } else {
            Err(TodoError::NotFound(id))
        },
        ActionView::Delete(id) => if list.contains_id(id as nat) {
            Ok(OutcomeView::Deleted(id))
        } else {
            Err(TodoError::NotFound(id))
        },
        ActionView::List => Ok(OutcomeView::Listed(list.visible(false))),
        ActionView::ListAll => Ok(OutcomeView::Listed(list.visible(true))),
    }
}

/// Whether `result` is what `expected` describes.
pub open spec fn reports(result: Result<Outcome, TodoError>, expected: Result<
    OutcomeView,
    TodoError,
>) -> bool {
    match expected {
        Ok(outcome) => result is Ok && result->Ok_0@ == outcome,
        Err(error) => result == Err::<Outcome, TodoError>(error),
    }
}

/// Copies of the listed tasks, in order.
fn copies_of(listed: &Vec<&Task>) -> (copies: Vec<Task>)
    ensures
        copies@.map_values(|t: Task| t@) == listed@.map_values(|t: &Task| t@),
{
    let mut copies: Vec<Task> = Vec::new();
    let mut i: usize = 0;
    while i < listed.len()
        invariant
            i <= listed.len(),
            copies@.map_values(|t: Task| t@) == listed@.take(i as int).map_values(|t: &Task| t@),
        decreases listed.len() - i,
    {
        let ghost before = copies@;
        copies.push(listed[i].clone());
        proof {
            assert(listed@.take(i as int + 1) =~= listed@.take(i as int).push(listed@[i as int]));
            assert(copies@.map_values(|t: Task| t@) =~= before.map_values(|t: Task| t@).push(
                listed@[i as int]@,
            ));
        }
        i += 1;
    }
    proof {
        assert(listed@.take(i as int) =~= listed@);
    }
    copies
}

impl TodoList {
    /// Takes the action at `now`: the list becomes `list_after`, and the
    /// result is `report_of`.
    pub fn apply_at(&mut self, action: &Action, now: NaiveDateTime) -> (result: Result<
        Outcome,
        TodoError,
    >)
        requires
            old(self).wf(),
            action is Add ==> old(self)@.next_id < usize::MAX,
        ensures
            final(self).wf(),
            final(self)@ == list_after(old(self)@, action@, now),
            reports(result, report_of(old(self)@, action@, now)),
    {
        match action {
            Action::Add(title) => match self.add_task_at(title.as_str(), now) {
                Ok(task) => Ok(Outcome::Added(task)),
                Err(e) => Err(e),
            },
            Action::Complete(id) => match self.complete_task_at(*id, now) {
                Ok(()) => Ok(Outcome::Completed(*id)),
                Err(e) => Err(e),
            },
            Action::Delete(id) => match self.delete_task(*id) {
                Ok(()) => Ok(Outcome::Deleted(*id)),
                Err(e) => Err(e),
            },
            Action::List => {
                let listed = self.list_tasks(false);
                Ok(Outcome::Listed(copies_of(&listed)))
            },
            Action::ListAll => {
                let listed = self.list_tasks(true);
                Ok(Outcome::Listed(copies_of(&listed)))
            },
        }
    }

    /// Takes the action at the current time: for some instant `now`, the
    /// list becomes `list_after` and the result is `report_of`.
    pub fn apply(&mut self, action: &Action) -> (result: Result<Outcome, TodoError>)
        requires
            old(self).wf(),
            action is Add ==> old(self)@.next_id < usize::MAX,
        ensures
            final(self).wf(),
            exists|now: NaiveDateTime|
                final(self)@ == #[trigger] list_after(old(self)@, action@, now) && reports(
                    result,
                    report_of(old(self)@, action@, now),
                ),
    {
        let instant = now();
        self.apply_at(action, instant)
    }
}

} // verus!
