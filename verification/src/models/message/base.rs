//! The message: payload, data, metadata, progress and audit trail, and the
//! transaction under which a task changes the data.
use crate::json::{entries_view, lemma_restore_undoes_write, Json, JsonValue};
use crate::models::message::auditlog::{
    audit_view, changes_view, AuditLog, AuditLogView, ChangeLog, ChangeLogView,
};
use crate::models::message::errors::FunctionResponseError;
use crate::models::message::progress::{MessageStatus, Progress, ProgressView, StatusCode};
use crate::models::payload::{Payload, PayloadView};
use crate::stamp::{fresh_id, now, Timestamp};
use crate::text::{lower_of, split_on, split_path, unicode_lower, unicode_upper, upper_of};
use vstd::prelude::*;

verus! {

/// A message on its way through a workflow.
#[derive(Debug, PartialEq)]
pub struct Message {
    pub(crate) id: u64,
    pub(crate) parent_id: Option<String>,
    pub(crate) payload: Payload,
    pub(crate) version: u16,
    pub(crate) tenant: String,
    pub(crate) origin: String,
    pub(crate) data: Json,
    pub(crate) metadata: Json,
    pub(crate) progress: Progress,
    pub(crate) audit: Vec<AuditLog>,
    pub(crate) ephemeral_data: Json,
    pub(crate) transaction_changes: Option<Vec<(String, Json)>>,
}

/// The value of a [`Message`]. The undo log is there while a transaction is
/// open: each entry is a path and the value that stood there.
pub ghost struct MessageView {
    pub id: u64,
    pub parent_id: Option<Seq<char>>,
    pub payload: PayloadView,
    pub version: u16,
    pub tenant: Seq<char>,
    pub origin: Seq<char>,
    pub data: JsonValue,
    pub metadata: JsonValue,
    pub progress: ProgressView,
    pub audit: Seq<AuditLogView>,
    pub ephemeral_data: JsonValue,
    pub transaction_changes: Option<Seq<(Seq<char>, JsonValue)>>,
}

/// The value of a text that may be missing.
pub open spec fn optional_text(t: Option<String>) -> Option<Seq<char>> {
    match t {
        Some(t) => Some(t@),
        None => None,
    }
}

impl View for Message {
    type V = MessageView;

    open(crate) spec fn view(&self) -> MessageView {
        MessageView {
            id: self.id,
            parent_id: optional_text(self.parent_id),
            payload: self.payload@,
            version: self.version,
            tenant: self.tenant@,
            origin: self.origin@,
            data: self.data@,
            metadata: self.metadata@,
            progress: self.progress@,
            audit: audit_view(self.audit@),
            ephemeral_data: self.ephemeral_data@,
            transaction_changes: match self.transaction_changes {
                Some(log) => Some(entries_view(log@)),
                None => None,
            },
        }
    }
}

// ---------------------------------------------------------------------------
// The transaction, said of values.
// ---------------------------------------------------------------------------
/// The keys of a dotted path.
pub open spec fn path_keys(path: Seq<char>) -> Seq<Seq<char>> {
    split_on(path, '.')
}

/// A path is accepted when its first key is `data`.
pub open spec fn path_accepted(path: Seq<char>) -> bool {
    path_keys(path)[0] == "data"@
}

/// The keys of a path below its first.
pub open spec fn path_below(path: Seq<char>) -> Seq<Seq<char>> {
    path_keys(path).skip(1)
}

/// The data after `value` is written at `path`. A path of the one key `data`
/// names no field, and writes nothing.
pub open spec fn updated(data: JsonValue, path: Seq<char>, value: JsonValue) -> JsonValue {
    if path_below(path).len() == 0 {
        data
    } else {
        data.with(path_below(path), value)
    }
}

/// The undo log after a write at `path` to `data`: the path and the value that
/// stood there are added to an open log.
pub open spec fn logged(
    log: Option<Seq<(Seq<char>, JsonValue)>>,
    data: JsonValue,
    path: Seq<char>,
) -> Option<Seq<(Seq<char>, JsonValue)>> {
    match log {
        Some(entries) => if path_below(path).len() == 0 {
            Some(entries)
        } else {
            Some(entries.push((path, data.at(path_below(path)))))
        },
        None => None,
    }
}

/// The data after one entry of the undo log is put back.
pub open spec fn undone(data: JsonValue, entry: (Seq<char>, JsonValue)) -> JsonValue {
    if path_accepted(entry.0) && path_below(entry.0).len() > 0 {
        data.restored(path_below(entry.0), entry.1)
    } else {
        data
    }
}

/// The data after the whole undo log is put back, last entry first.
pub open spec fn rolled_back(data: JsonValue, log: Seq<(Seq<char>, JsonValue)>) -> JsonValue
    decreases log.len(),
{
    if log.len() == 0 {
        data
    } else {
        rolled_back(undone(data, log.last()), log.drop_last())
    }
}

/// The data after a list of writes, each a path and a value, made in order to
/// accepted paths.
pub open spec fn written(data: JsonValue, writes: Seq<(Seq<char>, JsonValue)>) -> JsonValue
    decreases writes.len(),
{
    if writes.len() == 0 {
        data
    } else {
        updated(written(data, writes.drop_last()), writes.last().0, writes.last().1)
    }
}

/// The undo log that a list of writes leaves in a transaction that began with
/// `data`.
pub open spec fn undo_log(data: JsonValue, writes: Seq<(Seq<char>, JsonValue)>) -> Seq<
    (Seq<char>, JsonValue),
>
    decreases writes.len(),
{
    if writes.len() == 0 {
        Seq::empty()
    } else {
        logged(
            Some(undo_log(data, writes.drop_last())),
            written(data, writes.drop_last()),
            writes.last().0,
        )->0
    }
}

/// True when every write goes to an accepted path that is there when the
/// write is made: no node is made on the way, and no field is added.
pub open spec fn writes_in_place(data: JsonValue, writes: Seq<(Seq<char>, JsonValue)>) -> bool
    decreases writes.len(),
{
    writes.len() == 0 || (writes_in_place(data, writes.drop_last()) && path_accepted(
        writes.last().0,
    ) && written(data, writes.drop_last()).has(path_below(writes.last().0)))
}

/// Undo: writes made in place, then rolled back, leave the data as it was.
pub proof fn lemma_rollback_restores(data: JsonValue, writes: Seq<(Seq<char>, JsonValue)>)
    requires
        writes_in_place(data, writes),
    ensures
        rolled_back(written(data, writes), undo_log(data, writes)) == data,
    decreases writes.len(),
{
    if writes.len() > 0 {
        let before = written(data, writes.drop_last());
        let path = writes.last().0;
        lemma_rollback_restores(data, writes.drop_last());
        if path_below(path).len() > 0 {
            lemma_restore_undoes_write(before, path_below(path), writes.last().1);
            let log = undo_log(data, writes);
            assert(log.drop_last() =~= undo_log(data, writes.drop_last()));
        }
    }
}

/// The description of the first audit entry of a message created under the
/// name `alias`: the name with its first character in upper case, then
/// ` created`.
pub open spec fn creation_description(alias: Seq<char>) -> Seq<char> {
    if alias.len() == 0 {
        "Message created"@
    } else {
        unicode_upper(alias[0]) + alias.skip(1) + " created"@
    }
}

/// The reason of the first change of a message created under the name
/// `alias`.
pub open spec fn creation_reason(alias: Seq<char>) -> Seq<char> {
    "Initial message creation for "@ + unicode_lower(alias)
}

/// The name under which a message is created: `Message` where none is given.
pub open spec fn creation_alias(alias: Option<Seq<char>>) -> Seq<char> {
    match alias {
        Some(alias) => alias,
        None => "Message"@,
    }
}

impl Message {
    pub fn audit(&self) -> (r: &Vec<AuditLog>)
        ensures
            audit_view(r@) == self@.audit,
    {
        &self.audit
    }

    pub fn data(&self) -> (r: &Json)
        ensures
            r@ == self@.data,
    {
        &self.data
    }

    pub fn id(&self) -> (r: u64)
        ensures
            r == self@.id,
    {
        self.id
    }

    pub fn metadata(&self) -> (r: &Json)
        ensures
            r@ == self@.metadata,
    {
        &self.metadata
    }

    pub fn origin(&self) -> (r: &String)
        ensures
            r@ == self@.origin,
    {
        &self.origin
    }

    pub fn parent_id(&self) -> (r: &Option<String>)
        ensures
            optional_text(*r) == self@.parent_id,
    {
        &self.parent_id
    }

    pub fn payload(&self) -> (r: &Payload)
        ensures
            r@ == self@.payload,
    {
        &self.payload
    }

    pub fn progress(&self) -> (r: &Progress)
        ensures
            r@ == self@.progress,
    {
        &self.progress
    }

    pub fn tenant(&self) -> (r: &String)
        ensures
            r@ == self@.tenant,
    {
        &self.tenant
    }

    pub fn version(&self) -> (r: u16)
        ensures
            r == self@.version,
    {
        self.version
    }

    /// The context that the next enrichment evaluates its rules against.
    pub fn ephemeral_data(&self) -> (r: &Json)
        ensures
            r@ == self@.ephemeral_data,
    {
        &self.ephemeral_data
    }

    /// True while a transaction is open.
    pub fn in_transaction(&self) -> (r: bool)
        ensures
            r == self@.transaction_changes is Some,
    {
        self.transaction_changes.is_some()
    }

    /// Sets the metadata that workflow and task conditions are evaluated
    /// against.
    pub fn set_metadata(&mut self, metadata: Json)
        ensures
            final(self)@ == (MessageView { metadata: metadata@, ..old(self)@ }),
    {
        self.metadata = metadata;
    }

    /// Begin: records the workflow and the task in the progress and opens an
    /// empty undo log.
    pub fn transaction_begin(&mut self, workflow: String, task: String)
        ensures
            final(self)@ == (MessageView {
                progress: ProgressView {
                    workflow_id: workflow@,
                    prev_task: task@,
                    ..old(self)@.progress
                },
                transaction_changes: Some(Seq::empty()),
                ..old(self)@
            }),
    {
        self.progress.workflow_id = workflow;
        self.progress.prev_task = task;
        self.transaction_changes = Some(Vec::new());
        assert(entries_view(Seq::<(String, Json)>::empty()) =~= Seq::empty());
    }

    /// Update: writes `new_value` at the dotted path `field_path`, which must
    /// start with the key `data`, and adds what stood there to an open undo
    /// log. A path that starts otherwise is refused, and nothing changes.
    pub fn update(&mut self, field_path: &str, new_value: Json) -> (r: Result<
        (),
        FunctionResponseError,
    >)
        ensures
            r is Ok == path_accepted(field_path@),
            r is Ok ==> final(self)@ == (MessageView {
                data: updated(old(self)@.data, field_path@, new_value@),
                transaction_changes: logged(
                    old(self)@.transaction_changes,
                    old(self)@.data,
                    field_path@,
                ),
                ..old(self)@
            }),
            r matches Err(e) ==> final(self)@ == old(self)@ && e.function@ == "Update"@ && e.code
                == 400 && e.message@ == "Invalid field path"@,
    {
        let parts = split_path(field_path);
        if parts[0] != String::from_str("data") {
            return Err(
                FunctionResponseError::new(
                    String::from_str("Update"),
                    400,
                    String::from_str("Invalid field path"),
                ),
            );
        }
        assert(crate::json::keys_view(parts@)[0] == parts@[0]@);
        if parts.len() == 1 {
            return Ok(());
        }
        let mut data = Json::Null;
        core::mem::swap(&mut self.data, &mut data);
        let (changed, former) = data.write(&parts, 1, new_value);
        self.data = changed;
        let mut log: Option<Vec<(String, Json)>> = None;
        core::mem::swap(&mut self.transaction_changes, &mut log);
        if let Some(mut entries) = log {
            let ghost before = entries@;
            let owned = String::from_str(field_path);
            entries.push((owned, former));
            assert(entries_view(entries@) =~= entries_view(before).push((field_path@, former@)));
            self.transaction_changes = Some(entries);
        }
        Ok(())
    }

    /// Rollback at the instant `at`: puts the undo log back, last entry first,
    /// closes the transaction and marks the last task as failed.
    pub fn transaction_rollback_at(&mut self, at: Timestamp)
        ensures
            final(self)@ == (MessageView {
                data: match old(self)@.transaction_changes {
                    Some(log) => rolled_back(old(self)@.data, log),
                    None => old(self)@.data,
                },
                progress: ProgressView {
                    prev_status_code: Some(StatusCode::Failure),
                    timestamp: at,
                    ..old(self)@.progress
                },
                transaction_changes: None,
                ..old(self)@
            }),
    {
        let mut log: Option<Vec<(String, Json)>> = None;
        core::mem::swap(&mut self.transaction_changes, &mut log);
        if let Some(mut entries) = log {
            let mut data = Json::Null;
            core::mem::swap(&mut self.data, &mut data);
            let ghost all = entries_view(entries@);
            let ghost start = data@;
            while entries.len() > 0
                invariant
                    rolled_back(data@, entries_view(entries@)) == rolled_back(start, all),
                decreases entries.len(),
            {
                let ghost before = entries@;
                let ghost was = data@;
                let entry = entries.pop().unwrap();
                assert(entries_view(before).last() == (entry.0@, entry.1@));
                assert(entries_view(before).drop_last() =~= entries_view(entries@));
                let parts = split_path(entry.0.as_str());
                assert(crate::json::keys_view(parts@)[0] == parts@[0]@);
                if parts.len() > 1 && parts[0] == String::from_str("data") {
                    data = data.restore(&parts, 1, entry.1);
                }
                assert(data@ == undone(was, (entry.0@, entry.1@)));
            }
            self.data = data;
        }
        self.progress.prev_status_code = Some(StatusCode::Failure);
        self.progress.timestamp = at;
    }

    /// Rollback, stamped with the current instant.
    pub fn transaction_rollback(&mut self)
        ensures
            final(self)@ == (MessageView {
                data: match old(self)@.transaction_changes {
                    Some(log) => rolled_back(old(self)@.data, log),
                    None => old(self)@.data,
                },
                progress: ProgressView {
                    prev_status_code: Some(StatusCode::Failure),
                    timestamp: final(self)@.progress.timestamp,
                    ..old(self)@.progress
                },
                transaction_changes: None,
                ..old(self)@
            }),
    {
        let at = now();
        self.transaction_rollback_at(at);
    }

    /// Commit at the instant `at`: marks the last task as successful and
    /// discards the undo log.
    pub fn transaction_commit_at(&mut self, at: Timestamp)
        ensures
            final(self)@ == (MessageView {
                progress: ProgressView {
                    prev_status_code: Some(StatusCode::Success),
                    timestamp: at,
                    ..old(self)@.progress
                },
                transaction_changes: None,
                ..old(self)@
            }),
    {
        self.progress.prev_status_code = Some(StatusCode::Success);
        self.progress.timestamp = at;
        self.transaction_changes = None;
    }

    /// Commit, stamped with the current instant.
    pub fn transaction_commit(&mut self)
        ensures
            final(self)@ == (MessageView {
                progress: ProgressView {
                    prev_status_code: Some(StatusCode::Success),
                    timestamp: final(self)@.progress.timestamp,
                    ..old(self)@.progress
                },
                transaction_changes: None,
                ..old(self)@
            }),
    {
        let at = now();
        self.transaction_commit_at(at);
    }

    /// Appends an entry to the audit trail and counts the task: the version
    /// goes up by one.
    pub fn record(&mut self, entry: AuditLog)
        requires
            old(self)@.version < u16::MAX,
        ensures
            final(self)@ == (MessageView {
                audit: old(self)@.audit.push(entry@),
                version: (old(self)@.version + 1) as u16,
                ..old(self)@
            }),
    {
        let ghost before = self.audit@;
        self.audit.push(entry);
        self.version = self.version + 1;
        assert(audit_view(self.audit@) =~= audit_view(before).push(entry@));
    }
}

/// The description of the first audit entry and the reason of its change,
/// for a message created under the name `alias`.
pub fn creation_texts(alias: &str) -> (r: (String, String))
    ensures
        r.0@ == creation_description(alias@),
        r.1@ == creation_reason(alias@),
{
    let n = alias.unicode_len();
    let mut description = if n == 0 {
        String::from_str("Message")
    } else {
        let mut d = upper_of(alias.get_char(0));
        d.append(alias.substring_char(1, n));
        assert(alias@.subrange(1, n as int) =~= alias@.skip(1));
        d
    };
    description.append(" created");
    proof {
        if n == 0 {
            reveal_strlit("Message");
            reveal_strlit(" created");
            reveal_strlit("Message created");
            assert(description@ =~= "Message created"@);
        }
    }
    let mut reason = String::from_str("Initial message creation for ");
    reason.append(lower_of(alias).as_str());
    (description, reason)
}

impl Message {
    /// The message that begins with the given identifier, first audit entry
    /// and instant: received, at version 1, with no data yet and an open, empty
    /// undo log.
    pub fn create(
        id: u64,
        payload: Payload,
        tenant: String,
        origin: String,
        workflow_id: String,
        task_id: String,
        first: AuditLog,
        at: Timestamp,
    ) -> (r: Self)
        ensures
            r@ == (MessageView {
                id,
                parent_id: None,
                payload: payload@,
                version: 1,
                tenant: tenant@,
                origin: origin@,
                data: JsonValue::Null,
                metadata: JsonValue::Null,
                progress: ProgressView {
                    status: MessageStatus::Recieved,
                    workflow_id: workflow_id@,
                    prev_task: task_id@,
                    prev_status_code: Some(StatusCode::Success),
                    timestamp: at,
                },
                audit: seq![first@],
                ephemeral_data: JsonValue::Null,
                transaction_changes: Some(Seq::empty()),
            }),
    {
        let mut audit: Vec<AuditLog> = Vec::new();
        audit.push(first);
        let r = Message {
            id,
            parent_id: None,
            payload,
            version: 1,
            tenant,
            origin,
            data: Json::Null,
            metadata: Json::Null,
            progress: Progress {
                status: MessageStatus::Recieved,
                workflow_id,
                prev_task: task_id,
                prev_status_code: Some(StatusCode::Success),
                timestamp: at,
            },
            audit,
            ephemeral_data: Json::Null,
            transaction_changes: Some(Vec::new()),
        };
        assert(audit_view(r.audit@) =~= seq![first@]);
        assert(entries_view(Seq::<(String, Json)>::empty()) =~= Seq::empty());
        r
    }

    /// A new message around `payload`, created now under a fresh identifier.
    /// Its audit trail begins with the entry of its creation, which is named
    /// after `message_alias`.
    pub fn new(
        payload: Payload,
        tenant: String,
        origin: String,
        workflow_id: String,
        workflow_version: u16,
        task_id: String,
        message_alias: Option<String>,
    ) -> (r: Self)
        ensures
            r@ == (MessageView {
                id: r@.id,
                parent_id: None,
                payload: payload@,
                version: 1,
                tenant: tenant@,
                origin: origin@,
                data: JsonValue::Null,
                metadata: JsonValue::Null,
                progress: ProgressView {
                    status: MessageStatus::Recieved,
                    workflow_id: workflow_id@,
                    prev_task: task_id@,
                    prev_status_code: Some(StatusCode::Success),
                    timestamp: r@.progress.timestamp,
                },
                audit: seq![r@.audit[0]],
                ephemeral_data: JsonValue::Null,
                transaction_changes: Some(Seq::empty()),
            }),
            r@.audit[0].records(
                workflow_id@,
                workflow_version,
                task_id@,
                creation_description(creation_alias(optional_text(message_alias))),
                seq![
                    ChangeLogView {
                        field: "payload"@,
                        old_value: None,
                        new_value: None,
                        reason: creation_reason(creation_alias(optional_text(message_alias))),
                    },
                ],
            ),
    {
        let start_time = now();
        let id = fresh_id();
        let alias = match message_alias {
            Some(alias) => alias,
            None => String::from_str("Message"),
        };
        let (description, reason) = creation_texts(alias.as_str());
        let change = ChangeLog::new(String::from_str("payload"), reason, None, None);
        let mut changes: Vec<ChangeLog> = Vec::new();
        changes.push(change);
        assert(changes_view(changes@) =~= seq![change@]);
        let first = AuditLog::new(
            workflow_id.clone(),
            workflow_version,
            task_id.clone(),
            start_time,
            description,
            changes,
        );
        let at = now();
        Message::create(id, payload, tenant, origin, workflow_id, task_id, first, at)
    }

    /// A message with every part that is kept when a message is written out;
    /// it has no context for rules and no open transaction.
    pub fn from_parts(
        id: u64,
        parent_id: Option<String>,
        payload: Payload,
        version: u16,
        tenant: String,
        origin: String,
        data: Json,
        metadata: Json,
        progress: Progress,
        audit: Vec<AuditLog>,
    ) -> (r: Self)
        ensures
            r@ == (MessageView {
                id,
                parent_id: optional_text(parent_id),
                payload: payload@,
                version,
                tenant: tenant@,
                origin: origin@,
                data: data@,
                metadata: metadata@,
                progress: progress@,
                audit: audit_view(audit@),
                ephemeral_data: JsonValue::Null,
                transaction_changes: None,
            }),
    {
        Message {
            id,
            parent_id,
            payload,
            version,
            tenant,
            origin,
            data,
            metadata,
            progress,
            audit,
            ephemeral_data: Json::Null,
            transaction_changes: None,
        }
    }
}

} // verus!
