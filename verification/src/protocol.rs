//! The JSON Lines task protocol spoken to a native front end: every task has
//! a random identifier, its database row and the operation it runs.

use vstd::prelude::*;
use crate::ids::{is_v4_uuid_text, new_uuid_text, uuid_text_accepted};

verus! {

pub const TASK_PROTOCOL_VERSION: u32 = 1;

/// A running task as the protocol reports it.
#[derive(Debug, Clone)]
pub struct JsonlTask {
    database_id: i64,
    task_uid: String,
    operation: String,
}

impl JsonlTask {
    pub closed spec fn spec_database_id(&self) -> i64 {
        self.database_id
    }

    pub closed spec fn spec_task_uid(&self) -> Seq<char> {
        self.task_uid@
    }

    pub closed spec fn spec_operation(&self) -> Seq<char> {
        self.operation@
    }

    /// A task recorded under `database_id` with the given identifier.
    pub fn with_id(database_id: i64, task_uid: String, operation: &str) -> (r: JsonlTask)
        ensures
            r.spec_database_id() == database_id,
            r.spec_task_uid() == task_uid@,
            r.spec_operation() == operation@,
    {
        JsonlTask { database_id, task_uid, operation: operation.to_owned() }
    }

    /// The task's identifier as reported in every event.
    pub fn task_uid(&self) -> (r: &str)
        ensures
            r@ == self.spec_task_uid(),
    {
        self.task_uid.as_str()
    }

    /// The row of the task in the index.
    pub fn database_id(&self) -> (r: i64)
        ensures
            r == self.spec_database_id(),
    {
        self.database_id
    }

    /// The operation the task runs.
    pub fn operation(&self) -> (r: &str)
        ensures
            r@ == self.spec_operation(),
    {
        self.operation.as_str()
    }
}

/// A fresh random task identifier.
pub fn new_task_uid() -> (r: String)
    ensures
        is_v4_uuid_text(r@),
        uuid_text_accepted(r@),
{
    new_uuid_text()
}

/// Event types of the protocol.
#[derive(Debug, Clone, Copy, PartialEq, Eq, Structural)]
pub enum TaskEvent {
    Started,
    Progress,
    Completed,
}

impl TaskEvent {
    pub open spec fn name(self) -> Seq<char> {
        match self {
            TaskEvent::Started => "task_started"@,
            TaskEvent::Progress => "progress"@,
            TaskEvent::Completed => "task_completed"@,
        }
    }

    pub fn as_str(self) -> (r: &'static str)
        ensures
            r@ == self.name(),
    {
        match self {
            TaskEvent::Started => "task_started",
            TaskEvent::Progress => "progress",
            TaskEvent::Completed => "task_completed",
        }
    }
}

} // verus!
