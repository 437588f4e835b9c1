//! The two task shapes: an open task being worked on, and a completed task
//! recorded in the day's journal.

use vstd::prelude::*;

verus! {

/// Mathematical model of an open task.
pub ghost struct TaskView {
    pub name: Seq<char>,
    pub dt_start: u64,
}

/// Mathematical model of a completed task.
pub ghost struct DoneTaskView {
    pub name: Seq<char>,
    pub dt_start: u64,
    pub dt_end: u64,
    pub end_comment: Option<Seq<char>>,
}

impl DoneTaskView {
    /// A completed task never ends before it starts.
    pub open spec fn wf(self) -> bool {
        self.dt_end >= self.dt_start
    }
}

/// A task that has been started and not yet completed. Timestamps are
/// milliseconds since the Unix epoch.
pub struct NotCompletedTask {
    pub name: String,
    pub dt_start: u64,
}

/// A task that has been completed; immutable once appended to the journal.
pub struct CompletedTask {
    pub name: String,
    pub dt_start: u64,
    pub dt_end: u64,
    pub end_comment: Option<String>,
}

impl View for NotCompletedTask {
    type V = TaskView;

    open spec fn view(&self) -> TaskView {
        TaskView { name: self.name@, dt_start: self.dt_start }
    }
}

impl View for CompletedTask {
    type V = DoneTaskView;

    open spec fn view(&self) -> DoneTaskView {
        DoneTaskView {
            name: self.name@,
            dt_start: self.dt_start,
            dt_end: self.dt_end,
            end_comment: view_opt_string(self.end_comment),
        }
    }
}

/// The model of an optional string.
pub open spec fn view_opt_string(o: Option<String>) -> Option<Seq<char>> {
    match o {
        Some(s) => Some(s@),
        None => None,
    }
}

impl NotCompletedTask {
    /// Starts a task with the given name at the given time.
    pub fn start(name: String, now_millis: u64) -> (r: NotCompletedTask)
        ensures
            r@ == (TaskView { name: name@, dt_start: now_millis }),
    {
        NotCompletedTask { name, dt_start: now_millis }
    }

    /// Turns this open task into a completed record ending at the given time.
    /// The name and start time are copied verbatim and the comment is
    /// attached; a clock that moved backwards never yields a record that ends
    /// before it starts.
    pub fn complete_task(&self, end_comment: Option<String>, now_millis: u64) -> (r: CompletedTask)
        ensures
            r@.name == self@.name,
            r@.dt_start == self@.dt_start,
            r@.dt_end == if now_millis >= self@.dt_start {
                now_millis
            } else {
                self@.dt_start
            },
            r@.end_comment == view_opt_string(end_comment),
            r@.wf(),
    {
        let dt_end: u64 = if now_millis >= self.dt_start {
            now_millis
        } else {
            self.dt_start
        };
        CompletedTask { name: self.name.clone(), dt_start: self.dt_start, dt_end, end_comment }
    }
}

impl CompletedTask {
    /// A field-for-field copy of this record.
    pub fn duplicate(&self) -> (r: CompletedTask)
        ensures
            r@ == self@,
            r.name@ == self.name@,
            r.dt_start == self.dt_start,
            r.dt_end == self.dt_end,
            view_opt_string(r.end_comment) == view_opt_string(self.end_comment),
    {
        let end_comment: Option<String> = match &self.end_comment {
            Some(c) => Some(c.clone()),
            None => None,
        };
        CompletedTask {
            name: self.name.clone(),
            dt_start: self.dt_start,
            dt_end: self.dt_end,
            end_comment,
        }
    }
}

} // verus!
