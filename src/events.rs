//! Events emitted to the user interface while long-running tasks progress.

use vstd::prelude::*;

verus! {

/// The kinds of event that a task reports.
#[derive(PartialEq, Eq, Structural, Clone, Copy, Debug)]
pub enum Event {
    TaskStatus,
    TaskEnd,
}

/// The name under which an event is delivered.
pub open spec fn event_name_spec(e: Event) -> Seq<char> {
    match e {
        Event::TaskStatus => seq!['t', 'a', 's', 'k', '-', 's', 't', 'a', 't', 'u', 's'],
        Event::TaskEnd => seq!['t', 'a', 's', 'k', '-', 'e', 'n', 'd'],
    }
}

impl Event {
    /// The channel name of this event: `task-status` or `task-end`.
    pub fn event_name(&self) -> (r: &'static str)
        ensures
            r@ == event_name_spec(*self),
    {
        proof {
            reveal_strlit("task-status");
            reveal_strlit("task-end");
        }
        match self {
            Event::TaskStatus => "task-status",
            Event::TaskEnd => "task-end",
        }
    }
}

/// Progress of a task, keyed by the task's identifier.
#[derive(PartialEq, Eq, Clone, Debug, Default)]
pub struct TaskStatusPayload {
    pub task_uuid: String,
    pub status: String,
}

/// The end of a task, keyed by the task's identifier.
#[derive(PartialEq, Eq, Clone, Debug, Default)]
pub struct TaskEndPayload {
    pub task_uuid: String,
}

} // verus!
