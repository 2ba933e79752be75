//! The audit trail: one entry for each task that ran, with the changes it
//! made field by field.
use crate::json::{Json, JsonValue};
use crate::stamp::{fresh_id, now, Timestamp};
use vstd::prelude::*;

verus! {

/// The record of a change to one field.
#[derive(Debug, PartialEq)]
pub struct ChangeLog {
    pub(crate) field: String,
    pub(crate) old_value: Option<Json>,
    pub(crate) new_value: Option<Json>,
    pub(crate) reason: String,
}

/// The value of a [`ChangeLog`].
pub ghost struct ChangeLogView {
    pub field: Seq<char>,
    pub old_value: Option<JsonValue>,
    pub new_value: Option<JsonValue>,
    pub reason: Seq<char>,
}

/// The value of a document that may be missing.
pub open spec fn optional_json(j: Option<Json>) -> Option<JsonValue> {
    match j {
        Some(j) => Some(j@),
        None => None,
    }
}

impl View for ChangeLog {
    type V = ChangeLogView;

    open(crate) spec fn view(&self) -> ChangeLogView {
        ChangeLogView {
            field: self.field@,
            old_value: optional_json(self.old_value),
            new_value: optional_json(self.new_value),
            reason: self.reason@,
        }
    }
}

impl ChangeLog {
    /// The dotted path of the field.
    pub fn field(&self) -> (r: &str)
        ensures
            r@ == self@.field,
    {
        self.field.as_str()
    }

    /// The value before the change, where it was recorded.
    pub fn old_value(&self) -> (r: Option<&Json>)
        ensures
            r is Some == self@.old_value is Some,
            r matches Some(j) ==> j@ == self@.old_value->0,
    {
        match &self.old_value {
            Some(j) => Some(j),
            None => None,
        }
    }

    /// The value after the change, where it was recorded.
    pub fn new_value(&self) -> (r: Option<&Json>)
        ensures
            r is Some == self@.new_value is Some,
            r matches Some(j) ==> j@ == self@.new_value->0,
    {
        match &self.new_value {
            Some(j) => Some(j),
            None => None,
        }
    }

    /// Why the field changed.
    pub fn reason(&self) -> (r: &str)
        ensures
            r@ == self@.reason,
    {
        self.reason.as_str()
    }

    pub fn new(field: String, reason: String, old_value: Option<Json>, new_value: Option<Json>) -> (r:
        Self)
        ensures
            r@ == (ChangeLogView {
                field: field@,
                old_value: optional_json(old_value),
                new_value: optional_json(new_value),
                reason: reason@,
            }),
    {
        ChangeLog { field, old_value, new_value, reason }
    }
}

/// The values of a list of change records.
pub open spec fn changes_view(changes: Seq<ChangeLog>) -> Seq<ChangeLogView> {
    Seq::new(changes.len(), |i: int| changes[i]@)
}

/// The record of one task's run. An entry never finishes before it starts.
#[derive(Debug, PartialEq)]
pub struct AuditLog {
    pub(crate) id: u64,
    pub(crate) start_time: Timestamp,
    pub(crate) finish_time: Timestamp,
    pub(crate) workflow: String,
    pub(crate) workflow_version: u16,
    pub(crate) task: String,
    pub(crate) description: String,
    pub(crate) hash: String,
    pub(crate) service: String,
    pub(crate) instance: String,
    pub(crate) changes: Vec<ChangeLog>,
}

/// The value of an [`AuditLog`].
pub ghost struct AuditLogView {
    pub id: u64,
    pub start_time: Timestamp,
    pub finish_time: Timestamp,
    pub workflow: Seq<char>,
    pub workflow_version: u16,
    pub task: Seq<char>,
    pub description: Seq<char>,
    pub hash: Seq<char>,
    pub service: Seq<char>,
    pub instance: Seq<char>,
    pub changes: Seq<ChangeLogView>,
}

impl AuditLogView {
    /// True of the entry of a run of `task` in `workflow` that is described by
    /// `description` and made the changes `changes`, whatever its identifier
    /// and its instants are: it does not finish before it starts, and what is
    /// not yet filled in (hash, service, instance) is empty.
    pub open spec fn records(
        self,
        workflow: Seq<char>,
        workflow_version: u16,
        task: Seq<char>,
        description: Seq<char>,
        changes: Seq<ChangeLogView>,
    ) -> bool {
        &&& self.workflow == workflow
        &&& self.workflow_version == workflow_version
        &&& self.task == task
        &&& self.description == description
        &&& self.changes == changes
        &&& self.hash == Seq::<char>::empty()
        &&& self.service == Seq::<char>::empty()
        &&& self.instance == Seq::<char>::empty()
        &&& self.finish_time.not_before(self.start_time)
    }
}

impl View for AuditLog {
    type V = AuditLogView;

    open(crate) spec fn view(&self) -> AuditLogView {
        AuditLogView {
            id: self.id,
            start_time: self.start_time,
            finish_time: self.finish_time,
            workflow: self.workflow@,
            workflow_version: self.workflow_version,
            task: self.task@,
            description: self.description@,
            hash: self.hash@,
            service: self.service@,
            instance: self.instance@,
            changes: changes_view(self.changes@),
        }
    }
}

impl AuditLog {
    #[verifier::type_invariant]
    spec fn finishes_after_start(self) -> bool {
        self.finish_time.not_before(self.start_time)
    }

    pub fn id(&self) -> (r: u64)
        ensures
            r == self@.id,
    {
        self.id
    }

    pub fn workflow(&self) -> (r: &str)
        ensures
            r@ == self@.workflow,
    {
        self.workflow.as_str()
    }

    pub fn task(&self) -> (r: &str)
        ensures
            r@ == self@.task,
    {
        self.task.as_str()
    }

    pub fn description(&self) -> (r: &str)
        ensures
            r@ == self@.description,
    {
        self.description.as_str()
    }

    pub fn hash(&self) -> (r: &str)
        ensures
            r@ == self@.hash,
    {
        self.hash.as_str()
    }

    pub fn service(&self) -> (r: &str)
        ensures
            r@ == self@.service,
    {
        self.service.as_str()
    }

    pub fn instance(&self) -> (r: &str)
        ensures
            r@ == self@.instance,
    {
        self.instance.as_str()
    }

    pub fn workflow_version(&self) -> (r: u16)
        ensures
            r == self@.workflow_version,
    {
        self.workflow_version
    }

    pub fn changes(&self) -> (r: &[ChangeLog])
        ensures
            changes_view(r@) == self@.changes,
    {
        self.changes.as_slice()
    }

    pub fn start_time(&self) -> (r: &Timestamp)
        ensures
            *r == self@.start_time,
    {
        &self.start_time
    }

    /// The instant at which the run was recorded: never before its start.
    pub fn finish_time(&self) -> (r: &Timestamp)
        ensures
            *r == self@.finish_time,
            r.not_before(self@.start_time),
    {
        proof {
            use_type_invariant(self);
        }
        &self.finish_time
    }

    /// The entry with the identifier `id`, recorded at `recorded`. Where the
    /// clock stood back at `recorded`, behind `start_time`, the entry finishes
    /// at its start.
    pub fn stamped(
        id: u64,
        recorded: Timestamp,
        workflow: String,
        workflow_version: u16,
        task: String,
        start_time: Timestamp,
        description: String,
        changes: Vec<ChangeLog>,
    ) -> (r: Self)
        ensures
            r@ == (AuditLogView {
                id,
                start_time,
                finish_time: if recorded.not_before(start_time) {
                    recorded
                } else {
                    start_time
                },
                workflow: workflow@,
                workflow_version,
                task: task@,
                description: description@,
                hash: Seq::<char>::empty(),
                service: Seq::<char>::empty(),
                instance: Seq::<char>::empty(),
                changes: changes_view(changes@),
            }),
    {
        AuditLog {
            id,
            start_time,
            finish_time: recorded.latest(start_time),
            workflow,
            workflow_version,
            task,
            description,
            hash: String::new(),
            service: String::new(),
            instance: String::new(),
            changes,
        }
    }

    /// The entry of a run that started at `start_time` and is recorded now,
    /// under a fresh identifier.
    pub fn new(
        workflow: String,
        workflow_version: u16,
        task: String,
        start_time: Timestamp,
        description: String,
        changes: Vec<ChangeLog>,
    ) -> (r: Self)
        ensures
            r@.start_time == start_time,
            r@.records(workflow@, workflow_version, task@, description@, changes_view(changes@)),
    {
        let id = fresh_id();
        let recorded = now();
        AuditLog::stamped(id, recorded, workflow, workflow_version, task, start_time, description, changes)
    }

    /// An entry with every part given, unless it would finish before it
    /// starts.
    pub fn from_parts(
        id: u64,
        start_time: Timestamp,
        finish_time: Timestamp,
        workflow: String,
        workflow_version: u16,
        task: String,
        description: String,
        hash: String,
        service: String,
        instance: String,
        changes: Vec<ChangeLog>,
    ) -> (r: Option<Self>)
        ensures
            r is Some == finish_time.not_before(start_time),
            r matches Some(entry) ==> entry@ == (AuditLogView {
                id,
                start_time,
                finish_time,
                workflow: workflow@,
                workflow_version,
                task: task@,
                description: description@,
                hash: hash@,
                service: service@,
                instance: instance@,
                changes: changes_view(changes@),
            }),
    {
        if finish_time.not_before(start_time) {
            Some(
                AuditLog {
                    id,
                    start_time,
                    finish_time,
                    workflow,
                    workflow_version,
                    task,
                    description,
                    hash,
                    service,
                    instance,
                    changes,
                },
            )
        } else {
            None
        }
    }
}

impl Clone for ChangeLog {
    fn clone(&self) -> (r: Self)
        ensures
            r@ == self@,
    {
        let old_value = match &self.old_value {
            Some(j) => Some(j.clone()),
            None => None,
        };
        let new_value = match &self.new_value {
            Some(j) => Some(j.clone()),
            None => None,
        };
        ChangeLog { field: self.field.clone(), old_value, new_value, reason: self.reason.clone() }
    }
}

impl Clone for AuditLog {
    fn clone(&self) -> (r: Self)
        ensures
            r@ == self@,
    {
        proof {
            use_type_invariant(self);
        }
        let mut changes: Vec<ChangeLog> = Vec::new();
        let mut i: usize = 0;
        while i < self.changes.len()
            invariant
                i <= self.changes.len(),
                changes@.len() == i,
                forall|k: int| 0 <= k < i ==> (#[trigger] changes@[k])@ == self.changes@[k]@,
            decreases self.changes.len() - i,
        {
            changes.push(self.changes[i].clone());
            i = i + 1;
        }
        assert(changes_view(changes@) =~= changes_view(self.changes@));
        AuditLog {
            id: self.id,
            start_time: self.start_time,
            finish_time: self.finish_time,
            workflow: self.workflow.clone(),
            workflow_version: self.workflow_version,
            task: self.task.clone(),
            description: self.description.clone(),
            hash: self.hash.clone(),
            service: self.service.clone(),
            instance: self.instance.clone(),
            changes,
        }
    }
}

/// The values of a list of entries.
pub open spec fn audit_view(audit: Seq<AuditLog>) -> Seq<AuditLogView> {
    Seq::new(audit.len(), |i: int| audit[i]@)
}

} // verus!
