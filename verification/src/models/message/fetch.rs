//! The fetch task: stages the context that the next enrichment evaluates its
//! rules against.
use crate::json::Json;
use crate::models::message::auditlog::{AuditLog, ChangeLog, ChangeLogView};
use crate::models::message::base::{optional_text, Message, MessageView};
use crate::models::message::errors::FunctionResponseError;
use crate::stamp::now;
use vstd::prelude::*;

verus! {

/// True when `after` is `before` with one task counted: the audit trail has
/// one more entry, which records the task, and the version is one higher.
pub open spec fn task_recorded(
    before: MessageView,
    after: MessageView,
    workflow: Seq<char>,
    workflow_version: u16,
    task: Seq<char>,
    description: Seq<char>,
    changes: Seq<ChangeLogView>,
) -> bool {
    &&& after.audit.len() == before.audit.len() + 1
    &&& after.audit.drop_last() == before.audit
    &&& after.audit.last().records(workflow, workflow_version, task, description, changes)
    &&& after.version == before.version + 1
}

/// The description under which a task is recorded: the one given, or the
/// task's own.
pub open spec fn described(description: Option<Seq<char>>, otherwise: Seq<char>) -> Seq<char> {
    match description {
        Some(d) => d,
        None => otherwise,
    }
}

/// The description given, or `otherwise`.
pub fn description_or(description: Option<String>, otherwise: &str) -> (r: String)
    ensures
        r@ == described(optional_text(description), otherwise@),
{
    match description {
        Some(d) => d,
        None => String::from_str(otherwise),
    }
}

/// What a fetch of `data` leaves of `before`: the data as the context of the
/// next enrichment, and the task recorded with no change. A fetch does not
/// fail.
pub open spec fn fetched(
    before: MessageView,
    after: MessageView,
    r: Result<(), FunctionResponseError>,
    data: crate::json::JsonValue,
    description: Option<Seq<char>>,
    workflow: Seq<char>,
    workflow_version: u16,
    task: Seq<char>,
) -> bool {
    &&& r is Ok
    &&& after == (MessageView {
        ephemeral_data: data,
        audit: after.audit,
        version: after.version,
        ..before
    })
    &&& task_recorded(
        before,
        after,
        workflow,
        workflow_version,
        task,
        described(description, "Fetch applied"@),
        Seq::empty(),
    )
}

impl Message {
    /// Fetch: takes `data` as the context of the next enrichment and records
    /// the task, with no change to a field. It does not fail.
    pub fn fetch(
        &mut self,
        data: Json,
        description: Option<String>,
        workflow_id: String,
        workflow_version: u16,
        task_id: String,
    ) -> (r: Result<(), FunctionResponseError>)
        requires
            old(self)@.version < u16::MAX,
        ensures
            fetched(
                old(self)@,
                final(self)@,
                r,
                data@,
                optional_text(description),
                workflow_id@,
                workflow_version,
                task_id@,
            ),
    {
        let start_time = now();
        self.ephemeral_data = data;
        let changes: Vec<ChangeLog> = Vec::new();
        assert(crate::models::message::auditlog::changes_view(changes@) =~= Seq::empty());
        let entry = AuditLog::new(
            workflow_id,
            workflow_version,
            task_id,
            start_time,
            description_or(description, "Fetch applied"),
            changes,
        );
        let ghost before = self@;
        self.record(entry);
        assert(self@.audit.drop_last() =~= before.audit);
        Ok(())
    }
}

} // verus!
