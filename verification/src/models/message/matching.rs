//! Matching: whether a workflow takes a message, and whether a task fires.
use crate::json::{Json, JsonValue};
use crate::logic::{apply, evaluation};
use crate::models::message::base::Message;
use crate::models::message::progress::{MessageStatus, ProgressView, StatusCode};
use vstd::prelude::*;

verus! {

/// A condition holds in a context when there is none, or when it evaluates to
/// the boolean true; it does not hold where the evaluation fails.
pub open spec fn condition_holds(condition: JsonValue, context: JsonValue) -> bool {
    condition is Null || evaluation(condition, context) == Ok::<JsonValue, Seq<char>>(
        JsonValue::Bool(true),
    )
}

/// A workflow of the given tenant, origin and condition takes a message of
/// `tenant` and `origin` with the metadata `metadata`.
pub open spec fn workflow_matches(
    message_tenant: Seq<char>,
    message_origin: Seq<char>,
    metadata: JsonValue,
    tenant: Seq<char>,
    origin: Seq<char>,
    condition: JsonValue,
) -> bool {
    message_tenant == tenant && message_origin == origin && condition_holds(condition, metadata)
}

/// A task fires on a message at `progress` with the metadata `metadata` when
/// the message has the task's status, is in the workflow, stands after the
/// task's predecessor, which ended as the task expects, and the task's
/// condition holds.
pub open spec fn task_matches(
    progress: ProgressView,
    metadata: JsonValue,
    status: MessageStatus,
    workflow_id: Seq<char>,
    prev_task: Seq<char>,
    prev_status_code: Option<StatusCode>,
    condition: JsonValue,
) -> bool {
    status == progress.status && workflow_id == progress.workflow_id && prev_task
        == progress.prev_task && prev_status_code == progress.prev_status_code && condition_holds(
        condition,
        metadata,
    )
}

/// Decides a condition in a context.
pub fn holds(condition: &Json, context: &Json) -> (r: bool)
    ensures
        r == condition_holds(condition@, context@),
{
    if condition.is_null() {
        return true;
    }
    match apply(condition, context) {
        Ok(value) => match value.as_bool() {
            Some(b) => b,
            None => false,
        },
        Err(_) => false,
    }
}

/// True when two optional status codes are the same.
fn same_code(a: Option<StatusCode>, b: Option<StatusCode>) -> (r: bool)
    ensures
        r == (a == b),
{
    match (a, b) {
        (Some(x), Some(y)) => x == y,
        (None, None) => true,
        _ => false,
    }
}

impl Message {
    /// True when a workflow of `tenant` and `origin` with the condition
    /// `condition` takes this message.
    pub fn workflow_match(&self, tenant: &str, origin: &str, condition: &Json) -> (r: bool)
        ensures
            r == workflow_matches(
                self@.tenant,
                self@.origin,
                self@.metadata,
                tenant@,
                origin@,
                condition@,
            ),
    {
        if self.tenant != String::from_str(tenant) || self.origin != String::from_str(origin) {
            return false;
        }
        holds(condition, &self.metadata)
    }

    /// True when a task with these preconditions fires on this message. The
    /// answer depends on the message's progress and metadata and on the task's
    /// fields, and on nothing else.
    pub fn task_match(
        &self,
        status: MessageStatus,
        workflow_id: &str,
        prev_task: &str,
        prev_status_code: Option<StatusCode>,
        condition: &Json,
    ) -> (r: bool)
        ensures
            r == task_matches(
                self@.progress,
                self@.metadata,
                status,
                workflow_id@,
                prev_task@,
                prev_status_code,
                condition@,
            ),
    {
        if String::from_str(workflow_id) != self.progress.workflow_id || String::from_str(prev_task)
            != self.progress.prev_task || !same_code(prev_status_code, self.progress.prev_status_code)
            || status != self.progress.status {
            return false;
        }
        holds(condition, &self.metadata)
    }
}

} // verus!
