//! The position of a message in a workflow's state machine.
use crate::stamp::Timestamp;
use vstd::prelude::*;

verus! {

/// The status of a message.
#[derive(Clone, Copy, Debug, PartialEq, Eq, Structural)]
pub enum MessageStatus {
    Recieved,
    Processing,
    Completed,
    Failed,
}

/// How the last task ended.
#[derive(Clone, Copy, Debug, PartialEq, Eq, Structural)]
pub enum StatusCode {
    Success,
    Failure,
}

/// Where a message stands: its status, the workflow it is in, the task that
/// ran last and how that task ended.
#[derive(Clone, Debug, PartialEq)]
pub struct Progress {
    pub status: MessageStatus,
    pub workflow_id: String,
    pub prev_task: String,
    pub prev_status_code: Option<StatusCode>,
    pub timestamp: Timestamp,
}

/// The value of a [`Progress`].
pub ghost struct ProgressView {
    pub status: MessageStatus,
    pub workflow_id: Seq<char>,
    pub prev_task: Seq<char>,
    pub prev_status_code: Option<StatusCode>,
    pub timestamp: Timestamp,
}

impl View for Progress {
    type V = ProgressView;

    open spec fn view(&self) -> ProgressView {
        ProgressView {
            status: self.status,
            workflow_id: self.workflow_id@,
            prev_task: self.prev_task@,
            prev_status_code: self.prev_status_code,
            timestamp: self.timestamp,
        }
    }
}

} // verus!
