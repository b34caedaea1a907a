//! A single to-do item: identity, description, status and timestamps.

use vstd::prelude::*;

verus! {

/// The lifecycle stage of a task. Transitions are caller-driven and
/// unconstrained: any status may be set from any other.
#[derive(Clone, Copy, Debug, PartialEq, Eq, Structural)]
pub enum TaskStatus {
    Pending,
    Suspended,
    Completed,
}

/// One to-do item. `id` is positive, unique within its list, and never
/// changes; `created_at` is fixed at construction; `completed_at` is kept
/// for the persisted shape but never populated by `complete`.
#[derive(Clone, Debug, PartialEq, Eq)]
pub struct Task {
    pub id: usize,
    pub description: String,
    pub status: TaskStatus,
    pub created_at: String,
    pub completed_at: Option<String>,
}

/// The mathematical value of a [`Task`]: the same fields over sequences of
/// characters.
pub ghost struct TaskM {
    pub id: usize,
    pub description: Seq<char>,
    pub status: TaskStatus,
    pub created_at: Seq<char>,
    pub completed_at: Option<Seq<char>>,
}

/// The view of an optional text: the text's characters, if present.
pub open spec fn opt_view(o: Option<String>) -> Option<Seq<char>> {
    match o {
        Option::Some(s) => Option::Some(s@),
        Option::None => Option::None,
    }
}

impl View for Task {
    type V = TaskM;

    open spec fn view(&self) -> TaskM {
        TaskM {
            id: self.id,
            description: self.description@,
            status: self.status,
            created_at: self.created_at@,
            completed_at: opt_view(self.completed_at),
        }
    }
}

/// Relies on `chrono::Utc::now` and `chrono::DateTime::format` with the
/// pattern `%Y-%m-%d %H:%M:%S`: the current UTC wall-clock time rendered as
/// `YYYY-MM-DD HH:MM:SS`. The result depends on the clock, so nothing is
/// promised of its value.
#[verifier::external_body]
fn current_timestamp() -> String {
    chrono::Utc::now().format("%Y-%m-%d %H:%M:%S").to_string()
}

impl Task {
    /// A fresh task: `Pending`, created now, not yet completed. The caller
    /// guarantees that `id` is unused and the description non-empty; nothing
    /// is validated here.
    pub fn new(id: usize, description: String) -> (t: Task)
        ensures
            t.id == id,
            t.description == description,
            t.status == TaskStatus::Pending,
            t.completed_at is None,
    {
        let created_at = current_timestamp();
        Task { id, description, status: TaskStatus::Pending, created_at, completed_at: Option::None }
    }

    /// Unconditionally marks the task suspended; every other field is kept.
    pub fn suspend(&mut self)
        ensures
            final(self).status == TaskStatus::Suspended,
            final(self).id == old(self).id,
            final(self).description == old(self).description,
            final(self).created_at == old(self).created_at,
            final(self).completed_at == old(self).completed_at,
    {
        self.status = TaskStatus::Suspended;
    }

    /// Unconditionally marks the task completed; every other field is kept
    /// (`completed_at` stays as it was, deliberately left unset).
    pub fn complete(&mut self)
        ensures
            final(self).status == TaskStatus::Completed,
            final(self).id == old(self).id,
            final(self).description == old(self).description,
            final(self).created_at == old(self).created_at,
            final(self).completed_at == old(self).completed_at,
    {
        self.status = TaskStatus::Completed;
    }

    /// True exactly when the status is `Completed`.
    pub fn is_completed(&self) -> (r: bool)
        ensures
            r == (self.status == TaskStatus::Completed),
    {
        self.status == TaskStatus::Completed
    }

    /// The task's identifier.
    pub fn id(&self) -> (r: usize)
        ensures
            r == self.id,
    {
        self.id
    }
}

} // verus!
