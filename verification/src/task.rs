//! A single task and its mathematical model.

use vstd::prelude::*;
use chrono::NaiveDateTime;

verus! {

/// One unit of work.
#[derive(Debug, PartialEq, Eq)]
pub struct Task {
    /// Assigned by the list that created the task; never reused.
    pub id: usize,
    /// Free text; never empty in a well-formed task.
    pub title: String,
    pub completed: bool,
    /// When the task was created (UTC).
    pub created_at: NaiveDateTime,
    /// When the task was last marked completed (UTC); present exactly when
    /// `completed` is set.
    pub completed_at: Option<NaiveDateTime>,
}

/// What a `Task` stands for in contracts.
pub struct TaskView {
    pub id: nat,
    pub title: Seq<char>,
    pub completed: bool,
    pub created_at: NaiveDateTime,
    pub completed_at: Option<NaiveDateTime>,
}

impl View for Task {
    type V = TaskView;

    open spec fn view(&self) -> TaskView {
        TaskView {
            id: self.id as nat,
            title: self.title@,
            completed: self.completed,
            created_at: self.created_at,
            completed_at: self.completed_at,
        }
    }
}

impl TaskView {
    /// A task is well formed when its id is positive, its title is not
    /// empty, and it carries a completion time exactly when it is completed.
    pub open spec fn wf(self) -> bool {
        &&& self.id >= 1
        &&& self.title.len() > 0
        &&& (self.completed <==> self.completed_at is Some)
    }

    /// The task that `add` creates: pending, created at `now`.
    pub open spec fn fresh(id: nat, title: Seq<char>, now: NaiveDateTime) -> TaskView {
        TaskView { id, title, completed: false, created_at: now, completed_at: None }
    }

    /// The same task, marked completed at `now`. A completion time that it
    /// had is replaced; everything else stays.
    pub open spec fn finished(self, now: NaiveDateTime) -> TaskView {
        TaskView { completed: true, completed_at: Some(now), ..self }
    }
}

impl Clone for Task {
    /// A copy that stands for the same task.
    fn clone(&self) -> (copy: Task)
        ensures
            copy@ == self@,
    {
        Task {
            id: self.id,
            title: self.title.clone(),
            completed: self.completed,
            created_at: self.created_at,
            completed_at: self.completed_at,
        }
    }
}

impl Task {
    /// Whether the task meets the invariant of `TaskView::wf`.
    pub fn is_well_formed(&self) -> (ok: bool)
        ensures
            ok == self@.wf(),
    {
        self.id >= 1 && !self.title.as_str().is_empty() && (self.completed
            == self.completed_at.is_some())
    }
}

} // verus!
