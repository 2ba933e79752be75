//! What a task and a workflow report when they fail.
use crate::text::{decimal, decimal_text};
use vstd::prelude::*;

verus! {

/// The failure of one task function.
#[derive(Debug)]
pub struct FunctionResponseError {
    pub function: String,
    pub code: u32,
    pub message: String,
}

/// The failure of a workflow.
#[derive(Debug)]
pub struct WorkflowResponseError {
    pub workflow_id: String,
    pub version: u16,
    pub code: u16,
    pub desciption: String,
}

/// The line that reports a task's failure.
pub open spec fn function_error_text(function: Seq<char>, code: u32, message: Seq<char>) -> Seq<
    char,
> {
    "Function '"@ + function + "' failed (code "@ + decimal_text(code as nat) + "): "@ + message
}

/// The line that reports a workflow's failure.
pub open spec fn workflow_error_text(
    workflow_id: Seq<char>,
    version: u16,
    code: u16,
    desciption: Seq<char>,
) -> Seq<char> {
    "Workflow error - ID: "@ + workflow_id + ", Version: "@ + decimal_text(version as nat)
        + ", Code: "@ + decimal_text(code as nat) + ", Message: "@ + desciption
}

/// The description of a workflow's failure that stands for a task's failure.
pub open spec fn function_error_note(message: Seq<char>, function: Seq<char>) -> Seq<char> {
    "Function error: "@ + message + " ("@ + function + ")"@
}

impl FunctionResponseError {
    pub fn new(function: String, code: u32, message: String) -> (r: Self)
        ensures
            r.function == function,
            r.code == code,
            r.message == message,
    {
        FunctionResponseError { function, code, message }
    }

    /// The line that reports the failure.
    pub fn to_string(&self) -> (r: String)
        ensures
            r@ == function_error_text(self.function@, self.code, self.message@),
    {
        let mut r = String::from_str("Function '");
        r.append(self.function.as_str());
        r.append("' failed (code ");
        r.append(decimal(self.code as u64).as_str());
        r.append("): ");
        r.append(self.message.as_str());
        r
    }
}

impl WorkflowResponseError {
    pub fn new(workflow_id: String, version: u16, code: u16, desciption: String) -> (r: Self)
        ensures
            r.workflow_id == workflow_id,
            r.version == version,
            r.code == code,
            r.desciption == desciption,
    {
        WorkflowResponseError { workflow_id, version, code, desciption }
    }

    /// The line that reports the failure.
    pub fn to_string(&self) -> (r: String)
        ensures
            r@ == workflow_error_text(self.workflow_id@, self.version, self.code, self.desciption@),
    {
        let mut r = String::from_str("Workflow error - ID: ");
        r.append(self.workflow_id.as_str());
        r.append(", Version: ");
        r.append(decimal(self.version as u64).as_str());
        r.append(", Code: ");
        r.append(decimal(self.code as u64).as_str());
        r.append(", Message: ");
        r.append(self.desciption.as_str());
        r
    }
}

impl WorkflowResponseError {
    /// A task's failure as a workflow's failure: of an unknown workflow, with
    /// version 0 and code 500.
    pub fn from(err: FunctionResponseError) -> (r: Self)
        ensures
            r.workflow_id@ == "unknown"@,
            r.version == 0,
            r.code == 500,
            r.desciption@ == function_error_note(err.message@, err.function@),
    {
        let mut note = String::from_str("Function error: ");
        note.append(err.message.as_str());
        note.append(" (");
        note.append(err.function.as_str());
        note.append(")");
        WorkflowResponseError {
            workflow_id: String::from_str("unknown"),
            version: 0,
            code: 500,
            desciption: note,
        }
    }
}

} // verus!
