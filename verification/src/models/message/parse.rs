//! The parse task: takes the decoded payload as the message's data.
use crate::json::Json;
use crate::models::message::auditlog::{changes_view, AuditLog, ChangeLog, ChangeLogView};
use crate::models::message::base::{optional_text, Message, MessageView};
use crate::models::message::errors::FunctionResponseError;
use crate::models::message::fetch::{described, description_or, task_recorded};
use crate::models::payload::PayloadSource;
use crate::stamp::now;
use crate::text::join;
use vstd::prelude::*;

verus! {

/// What came of reading a payload, decoding its XML and checking the document
/// against the payload's schema.
#[derive(Debug, PartialEq)]
pub enum Decoded {
    /// The document that was decoded, and is valid.
    Document(Json),
    /// The file could not be opened: the error's text.
    Unreadable(String),
    /// The XML could not be decoded: the error's text.
    Malformed(String),
    /// The document does not follow the schema: the error's text.
    Invalid(String),
}

/// The message of the failure that a parse ends in, if it ends in one: a
/// payload without a source fails whatever was decoded.
pub open spec fn parse_failure(source: PayloadSource, decoded: Decoded) -> Option<Seq<char>> {
    if source is Missing {
        Some("No content or URL provided"@)
    } else {
        match decoded {
            Decoded::Document(_) => None,
            Decoded::Unreadable(e) => Some("File open error: "@ + e@),
            Decoded::Malformed(e) => Some("ISO20022 parsing error: "@ + e@),
            Decoded::Invalid(e) => Some("Schema validation error: "@ + e@),
        }
    }
}

/// The change that a parse records.
pub open spec fn parse_change() -> ChangeLogView {
    ChangeLogView {
        field: "data"@,
        old_value: None,
        new_value: None,
        reason: "ISO20022 message parsed"@,
    }
}

/// What a parse leaves of `before`, given what the payload was decoded to:
/// where it fails, the failure and the message as it was; where it does not,
/// the document as the data, and the task recorded with the one change of the
/// field `data`.
pub open spec fn parsed(
    before: MessageView,
    after: MessageView,
    r: Result<(), FunctionResponseError>,
    decoded: Decoded,
    description: Option<Seq<char>>,
    workflow: Seq<char>,
    workflow_version: u16,
    task: Seq<char>,
) -> bool {
    &&& r is Err == parse_failure(before.payload.source(), decoded) is Some
    &&& r matches Err(e) ==> after == before && e.function@ == "Parse"@ && e.code == 400
        && e.message@ == parse_failure(before.payload.source(), decoded)->0
    &&& r is Ok ==> after == (MessageView {
        data: decoded->Document_0@,
        audit: after.audit,
        version: after.version,
        ..before
    }) && task_recorded(
        before,
        after,
        workflow,
        workflow_version,
        task,
        described(description, "ISO20022 message parsed"@),
        seq![parse_change()],
    )
}

impl Message {
    /// Parse: takes the document that the payload was decoded to as the
    /// message's data, and records the task with one change, of the field
    /// `data`. Where the payload has no source, or was not decoded to a valid
    /// document, the task fails and the message stays as it is.
    pub fn parse(
        &mut self,
        decoded: &Decoded,
        description: Option<String>,
        workflow_id: String,
        workflow_version: u16,
        task_id: String,
    ) -> (r: Result<(), FunctionResponseError>)
        requires
            old(self)@.version < u16::MAX,
        ensures
            parsed(
                old(self)@,
                final(self)@,
                r,
                *decoded,
                optional_text(description),
                workflow_id@,
                workflow_version,
                task_id@,
            ),
    {
        let start_time = now();
        if self.payload.content().is_none() && self.payload.url().is_none() {
            return Err(
                FunctionResponseError::new(
                    String::from_str("Parse"),
                    400,
                    String::from_str("No content or URL provided"),
                ),
            );
        }
        match decoded {
            Decoded::Document(document) => {
                self.data = document.clone();
                let change = ChangeLog::new(
                    String::from_str("data"),
                    String::from_str("ISO20022 message parsed"),
                    None,
                    None,
                );
                let mut changes: Vec<ChangeLog> = Vec::new();
                changes.push(change);
                assert(changes_view(changes@) =~= seq![parse_change()]);
                let entry = AuditLog::new(
                    workflow_id,
                    workflow_version,
                    task_id,
                    start_time,
                    description_or(description, "ISO20022 message parsed"),
                    changes,
                );
                let ghost before = self@;
                self.record(entry);
                assert(self@.audit.drop_last() =~= before.audit);
                Ok(())
            },
            Decoded::Unreadable(e) => Err(
                FunctionResponseError::new(
                    String::from_str("Parse"),
                    400,
                    join("File open error: ", e.as_str()),
                ),
            ),
            Decoded::Malformed(e) => Err(
                FunctionResponseError::new(
                    String::from_str("Parse"),
                    400,
                    join("ISO20022 parsing error: ", e.as_str()),
                ),
            ),
            Decoded::Invalid(e) => Err(
                FunctionResponseError::new(
                    String::from_str("Parse"),
                    400,
                    join("Schema validation error: ", e.as_str()),
                ),
            ),
        }
    }
}

} // verus!
