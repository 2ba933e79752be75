//! A task: one unit of work in a workflow.
use crate::json::Json;
use crate::models::message::progress::{MessageStatus, StatusCode};
use vstd::prelude::*;

verus! {

/// The kind of work that a task does.
#[derive(Clone, Copy, Debug, PartialEq, Eq, Structural)]
pub enum FunctionType {
    Parse,
    Validate,
    Fetch,
    Enrich,
    Publish,
}

impl FunctionType {
    /// The name of the kind.
    pub open spec fn spec_name(self) -> Seq<char> {
        match self {
            FunctionType::Parse => "Parse"@,
            FunctionType::Validate => "Validate"@,
            FunctionType::Fetch => "Fetch"@,
            FunctionType::Enrich => "Enrich"@,
            FunctionType::Publish => "Publish"@,
        }
    }

    /// The name of the kind.
    pub fn name(self) -> (r: &'static str)
        ensures
            r@ == self.spec_name(),
    {
        match self {
            FunctionType::Parse => "Parse",
            FunctionType::Validate => "Validate",
            FunctionType::Fetch => "Fetch",
            FunctionType::Enrich => "Enrich",
            FunctionType::Publish => "Publish",
        }
    }
}

/// A task of a workflow: the state of the message in which it fires, the work
/// it does and the input of that work.
#[derive(Clone, Debug, PartialEq)]
pub struct Task {
    pub id: String,
    pub name: String,
    pub description: String,
    pub message_status: MessageStatus,
    pub prev_task: String,
    pub prev_status_code: Option<StatusCode>,
    pub condition: Json,
    pub function: FunctionType,
    pub input: Json,
}

} // verus!
