//! A workflow: a static, versioned list of tasks for the messages of one
//! tenant and origin.
use crate::json::Json;
use crate::models::task::Task;
use vstd::prelude::*;

verus! {

/// The state of a workflow's definition.
#[derive(Clone, Copy, Debug, PartialEq, Eq, Structural)]
pub enum WorkflowStatus {
    Draft,
    Active,
    Deprecated,
}

/// A workflow.
#[derive(Clone, Debug, PartialEq)]
pub struct Workflow {
    pub id: String,
    pub name: String,
    pub description: String,
    pub version: u16,
    pub tenant: String,
    pub origin: String,
    pub status: WorkflowStatus,
    pub condition: Json,
    pub tasks: Vec<Task>,
    pub input_topic: String,
    pub persist_on_complete: bool,
}

} // verus!
