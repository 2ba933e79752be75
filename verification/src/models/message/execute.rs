//! The workflow engine: runs the task that fires, again and again, until none
//! fires.
use crate::models::message::base::{Message, MessageView};
use crate::models::message::base::writes_in_place;
use crate::models::message::enrich::{
    enriched, lemma_evaluated_by_value, lemma_failed_run_restores, rules_in, steps_of, writes_of,
    EnrichmentRules,
};
use crate::models::message::errors::{
    function_error_text, FunctionResponseError, WorkflowResponseError,
};
use crate::models::message::fetch::fetched;
use crate::models::message::matching::task_matches;
use crate::models::message::parse::{parsed, Decoded};
use crate::models::message::progress::{MessageStatus, Progress, ProgressView, StatusCode};
use crate::models::task::{FunctionType, Task};
use crate::models::workflow::Workflow;
use crate::stamp::now;
use crate::text::join;
use vstd::prelude::*;

verus! {

/// What a task that ran leaves the message in.
#[derive(Debug)]
pub struct TaskResult {
    pub status: MessageStatus,
    pub status_code: Option<StatusCode>,
}

/// The most entries that an audit trail may hold while a workflow runs.
pub const AUDIT_LIMIT: usize = 100;

/// A result without what a task left, for a task that did not fail.
pub open spec fn outcome_of(r: Result<TaskResult, FunctionResponseError>) -> Result<
    (),
    FunctionResponseError,
> {
    match r {
        Ok(_) => Ok(()),
        Err(e) => Err(e),
    }
}

/// What running `task` of the workflow leaves of `before`: what its function
/// leaves, under the task's description. An enrichment reads its rules from
/// the task's input and evaluates them against the context that a fetch
/// staged; where the input lists no rules it fails, and so does a function
/// that is not supported. A task that fails otherwise than by an enrichment
/// that was begun leaves the message as it was.
pub open spec fn executed(
    before: MessageView,
    after: MessageView,
    r: Result<TaskResult, FunctionResponseError>,
    workflow: Seq<char>,
    workflow_version: u16,
    task: Task,
    decoded: Decoded,
) -> bool {
    &&& r matches Ok(left) ==> left.status == MessageStatus::Processing && left.status_code == Some(
        StatusCode::Success,
    )
    &&& match task.function {
        FunctionType::Parse => parsed(
            before,
            after,
            outcome_of(r),
            decoded,
            Some(task.description@),
            workflow,
            workflow_version,
            task.id@,
        ),
        FunctionType::Fetch => fetched(
            before,
            after,
            outcome_of(r),
            task.input@,
            Some(task.description@),
            workflow,
            workflow_version,
            task.id@,
        ),
        FunctionType::Enrich => match rules_in(task.input@) {
            Some(rules) => enriched(
                before,
                after,
                outcome_of(r),
                steps_of(rules, before.ephemeral_data),
                Some(task.description@),
                workflow,
                workflow_version,
                task.id@,
            ),
            None => r matches Err(e) && after == before && e.function@ == "Enrich"@ && e.code
                == 400 && e.message@ == "Invalid enrichment rules"@,
        },
        _ => r matches Err(e) && after == before && e.function@ == "Execute"@ && e.code == 400
            && e.message@ == "Function not supported: "@ + task.function.spec_name(),
    }
}

/// A task that ran, whether it failed or not, leaves what the engine does not
/// touch, keeps the audit trail's entries, and adds one entry and one to the
/// version exactly when it did not fail.
pub proof fn lemma_executed_keeps(
    before: MessageView,
    after: MessageView,
    r: Result<TaskResult, FunctionResponseError>,
    workflow: Seq<char>,
    workflow_version: u16,
    task: Task,
    decoded: Decoded,
)
    requires
        executed(before, after, r, workflow, workflow_version, task, decoded),
    ensures
        after.id == before.id,
        after.parent_id == before.parent_id,
        after.payload == before.payload,
        after.tenant == before.tenant,
        after.origin == before.origin,
        after.metadata == before.metadata,
        r is Ok ==> after.audit.len() == before.audit.len() + 1 && after.audit.drop_last()
            == before.audit && after.version == before.version + 1,
        r is Err ==> after.audit == before.audit && after.version == before.version,
        r is Err && !(task.function is Enrich && rules_in(task.input@) is Some) ==> after
            == before,
{
}

/// Atomicity: a task that fails leaves the data, the version and the audit
/// trail as they were. For an enrichment that was begun this is so where the
/// writes it made before it stopped were made in place.
pub proof fn lemma_failed_task_is_atomic(
    before: MessageView,
    after: MessageView,
    r: Result<TaskResult, FunctionResponseError>,
    workflow: Seq<char>,
    workflow_version: u16,
    task: Task,
    decoded: Decoded,
)
    requires
        executed(before, after, r, workflow, workflow_version, task, decoded),
        r is Err,
        task.function is Enrich && rules_in(task.input@) is Some ==> writes_in_place(
            before.data,
            writes_of(before.data, steps_of(rules_in(task.input@)->0, before.ephemeral_data)),
        ),
    ensures
        after.data == before.data,
        after.version == before.version,
        after.audit == before.audit,
{
    if task.function is Enrich && rules_in(task.input@) is Some {
        lemma_failed_run_restores(
            before.data,
            steps_of(rules_in(task.input@)->0, before.ephemeral_data),
        );
    }
}

/// True when the task at place `i` of the workflow fires on the message.
pub open spec fn fires(m: MessageView, workflow: Workflow, i: int) -> bool {
    task_matches(
        m.progress,
        m.metadata,
        workflow.tasks@[i].message_status,
        workflow.id@,
        workflow.tasks@[i].prev_task@,
        workflow.tasks@[i].prev_status_code,
        workflow.tasks@[i].condition@,
    )
}

/// True when no task of the workflow fires on the message.
pub open spec fn quiescent(m: MessageView, workflow: Workflow) -> bool {
    forall|i: int| 0 <= i < workflow.tasks@.len() ==> !fires(m, workflow, i)
}

/// The description of the failure of a workflow whose audit trail has grown
/// beyond its limit.
pub open spec fn overflow_text() -> Seq<char> {
    "Audit overflow: the audit trail holds more than 100 entries"@
}

/// The description of the failure of a workflow in which a task failed.
pub open spec fn task_failure_text(e: FunctionResponseError) -> Seq<char> {
    "Task execution failed: "@ + function_error_text(e.function@, e.code, e.message@)
}

/// True of a message on which the task at place `i` of the workflow failed
/// with `failure`, and of the description of the workflow's failure: the
/// progress stands at `Failed`, after that task, with the code of failure.
pub open spec fn stopped_by(
    after: MessageView,
    workflow: Workflow,
    desciption: Seq<char>,
    i: int,
    failure: FunctionResponseError,
) -> bool {
    &&& 0 <= i < workflow.tasks@.len()
    &&& after.progress.status == MessageStatus::Failed
    &&& after.progress.workflow_id == workflow.id@
    &&& after.progress.prev_task == workflow.tasks@[i].id@
    &&& after.progress.prev_status_code == Some(StatusCode::Failure)
    &&& desciption == task_failure_text(failure)
}

/// True when the task at place `i` is the first of the workflow that fires on
/// the message.
pub open spec fn first_firing(m: MessageView, workflow: Workflow, i: int) -> bool {
    &&& 0 <= i < workflow.tasks@.len()
    &&& fires(m, workflow, i)
    &&& forall|k: int| 0 <= k < i ==> !fires(m, workflow, k)
}

/// True of a pass that ran the task at place `i` without failure: the audit
/// trail was within its limit, the task was the first to fire, it left `mid`,
/// and the progress then took the task's status, the workflow, the task and
/// success.
pub open spec fn pass_ran(
    before: MessageView,
    after: MessageView,
    workflow: Workflow,
    decoded: Decoded,
    i: int,
    mid: MessageView,
    left: TaskResult,
) -> bool {
    &&& before.audit.len() <= 100
    &&& first_firing(before, workflow, i)
    &&& executed(
        before,
        mid,
        Ok::<TaskResult, FunctionResponseError>(left),
        workflow.id@,
        workflow.version,
        workflow.tasks@[i],
        decoded,
    )
    &&& after == (MessageView {
        progress: ProgressView {
            status: workflow.tasks@[i].message_status,
            workflow_id: workflow.id@,
            prev_task: workflow.tasks@[i].id@,
            prev_status_code: Some(StatusCode::Success),
            timestamp: after.progress.timestamp,
        },
        ..mid
    })
}

/// True when one pass without failure leads from `before` to `after`.
pub open spec fn passed(
    before: MessageView,
    after: MessageView,
    workflow: Workflow,
    decoded: Decoded,
) -> bool {
    exists|i: int, mid: MessageView, left: TaskResult| #[trigger]
        pass_ran(before, after, workflow, decoded, i, mid, left)
}

/// True of a pass in which the task at place `i` failed with `failure`: the
/// audit trail was within its limit, the task was the first to fire, it left
/// `mid`, and the progress then stood at `Failed`, after that task.
pub open spec fn pass_failed(
    before: MessageView,
    after: MessageView,
    workflow: Workflow,
    decoded: Decoded,
    i: int,
    mid: MessageView,
    failure: FunctionResponseError,
) -> bool {
    &&& before.audit.len() <= 100
    &&& first_firing(before, workflow, i)
    &&& executed(
        before,
        mid,
        Err::<TaskResult, FunctionResponseError>(failure),
        workflow.id@,
        workflow.version,
        workflow.tasks@[i],
        decoded,
    )
    &&& after == (MessageView {
        progress: ProgressView {
            status: MessageStatus::Failed,
            workflow_id: workflow.id@,
            prev_task: workflow.tasks@[i].id@,
            prev_status_code: Some(StatusCode::Failure),
            timestamp: after.progress.timestamp,
        },
        ..mid
    })
}

/// True of the states of a message from pass to pass: each but the last leads
/// to the next by a pass without failure.
pub open spec fn is_trace(trace: Seq<MessageView>, workflow: Workflow, decoded: Decoded) -> bool {
    &&& trace.len() >= 1
    &&& forall|k: int|
        0 <= k < trace.len() - 1 ==> passed(#[trigger] trace[k], trace[k + 1], workflow, decoded)
}

/// True when running the workflow on `before` went through the states
/// `trace`, left `after` and handed back `r`. A run that ends well ends in a
/// state in which no task fires. A run ends in failure where the audit trail
/// is beyond its limit at the beginning of a pass, and where the task of a
/// pass fails.
pub open spec fn ran(
    trace: Seq<MessageView>,
    before: MessageView,
    after: MessageView,
    r: Result<(), WorkflowResponseError>,
    workflow: Workflow,
    decoded: Decoded,
) -> bool {
    &&& is_trace(trace, workflow, decoded)
    &&& trace[0] == before
    &&& match r {
        Ok(_) => after == trace.last() && after.audit.len() <= 100 && quiescent(after, workflow),
        Err(e) => {
            &&& e.workflow_id@ == workflow.id@
            &&& e.version == workflow.version
            &&& e.code == 500
            &&& if trace.last().audit.len() > 100 {
                after == trace.last() && e.desciption@ == overflow_text()
            } else {
                exists|i: int, mid: MessageView, failure: FunctionResponseError| #[trigger]
                    pass_failed(trace.last(), after, workflow, decoded, i, mid, failure)
                        && e.desciption@ == task_failure_text(failure)
            }
        },
    }
}

/// The number of tasks that a run executed: one in each pass without failure,
/// and the one that failed.
pub open spec fn executions(trace: Seq<MessageView>, r: Result<(), WorkflowResponseError>) -> int {
    trace.len() - 1 + if r is Err && trace.last().audit.len() <= 100 {
        1int
    } else {
        0int
    }
}

/// Each pass without failure adds one entry to the audit trail and one to the
/// version, and keeps the entries that were there.
pub proof fn lemma_trace_grows(trace: Seq<MessageView>, workflow: Workflow, decoded: Decoded, k: int)
    requires
        is_trace(trace, workflow, decoded),
        0 <= k < trace.len(),
    ensures
        trace[k].audit.len() == trace[0].audit.len() + k,
        trace[k].version == trace[0].version + k,
        trace[k].audit.take(trace[0].audit.len() as int) == trace[0].audit,
        k > 0 ==> trace[0].audit.len() + k <= 101,
    decreases k,
{
    if k > 0 {
        lemma_trace_grows(trace, workflow, decoded, k - 1);
        assert(passed(trace[k - 1], trace[k], workflow, decoded));
        let (i, mid, left) = choose|i: int, mid: MessageView, left: TaskResult| #[trigger]
            pass_ran(trace[k - 1], trace[k], workflow, decoded, i, mid, left);
        lemma_executed_keeps(
            trace[k - 1],
            mid,
            Ok::<TaskResult, FunctionResponseError>(left),
            workflow.id@,
            workflow.version,
            workflow.tasks@[i],
            decoded,
        );
        assert(trace[k].audit == mid.audit);
        assert(mid.audit.drop_last() == trace[k - 1].audit);
        assert(trace[k].audit.take(trace[0].audit.len() as int) =~= trace[k - 1].audit.take(
            trace[0].audit.len() as int,
        ));
    } else {
        assert(trace[0].audit.take(trace[0].audit.len() as int) =~= trace[0].audit);
    }
}

/// Convergence: a run on a message whose audit trail has an entry, as that
/// of every message has from its creation, executes at most 100 tasks.
pub proof fn lemma_convergence(
    trace: Seq<MessageView>,
    before: MessageView,
    after: MessageView,
    r: Result<(), WorkflowResponseError>,
    workflow: Workflow,
    decoded: Decoded,
)
    requires
        ran(trace, before, after, r, workflow, decoded),
        before.audit.len() >= 1,
    ensures
        executions(trace, r) <= 100,
{
    lemma_trace_grows(trace, workflow, decoded, trace.len() - 1);
}

impl Message {
    /// Runs one task of a workflow on the message.
    pub fn execute_task(
        &mut self,
        workflow_id: String,
        workflow_version: u16,
        task: &Task,
        decoded: &Decoded,
    ) -> (r: Result<TaskResult, FunctionResponseError>)
        requires
            old(self)@.version < u16::MAX,
        ensures
            executed(
                old(self)@,
                final(self)@,
                r,
                workflow_id@,
                workflow_version,
                *task,
                *decoded,
            ),
    {
        let done = match task.function {
            FunctionType::Parse => self.parse(
                decoded,
                Some(task.description.clone()),
                workflow_id,
                workflow_version,
                task.id.clone(),
            ),
            FunctionType::Enrich => {
                match EnrichmentRules::read_list(&task.input) {
                    Some(rules) => {
                        proof {
                            lemma_evaluated_by_value(rules@, self@.ephemeral_data);
                        }
                        let context = self.ephemeral_data.clone();
                        self.enrich(
                            rules,
                            context,
                            Some(task.description.clone()),
                            workflow_id,
                            workflow_version,
                            task.id.clone(),
                        )
                    },
                    None => Err(
                        FunctionResponseError::new(
                            String::from_str("Enrich"),
                            400,
                            String::from_str("Invalid enrichment rules"),
                        ),
                    ),
                }
            },
            FunctionType::Fetch => self.fetch(
                task.input.clone(),
                Some(task.description.clone()),
                workflow_id,
                workflow_version,
                task.id.clone(),
            ),
            _ => Err(
                FunctionResponseError::new(
                    String::from_str("Execute"),
                    400,
                    join("Function not supported: ", task.function.name()),
                ),
            ),
        };
        match done {
            Ok(()) => Ok(
                TaskResult {
                    status: MessageStatus::Processing,
                    status_code: Some(StatusCode::Success),
                },
            ),
            Err(e) => Err(e),
        }
    }

    /// The place of the first task of the workflow that fires on the message.
    pub fn next_task(&self, workflow: &Workflow) -> (r: Option<usize>)
        ensures
            match r {
                Some(i) => i < workflow.tasks@.len() && fires(self@, *workflow, i as int) && forall|
                    k: int,
                |
                    0 <= k < i ==> !fires(self@, *workflow, k),
                None => quiescent(self@, *workflow),
            },
    {
        let mut i: usize = 0;
        while i < workflow.tasks.len()
            invariant
                i <= workflow.tasks@.len(),
                forall|k: int| 0 <= k < i ==> !fires(self@, *workflow, k),
            decreases workflow.tasks.len() - i,
        {
            let task = &workflow.tasks[i];
            if self.task_match(
                task.message_status,
                workflow.id.as_str(),
                task.prev_task.as_str(),
                task.prev_status_code,
                &task.condition,
            ) {
                return Some(i);
            }
            i = i + 1;
        }
        None
    }

    /// Runs a workflow on the message until it is quiescent.
    ///
    /// In each pass the first task that fires, in the order of the workflow,
    /// is run. After a task that did not fail, the progress takes the task's
    /// status, the workflow, the task and success, and the next pass begins.
    /// A task that fails ends the workflow in failure, with the progress at
    /// `Failed`. So does an audit trail of more than 100 entries, found at the
    /// beginning of a pass: no pass runs a task then.
    pub fn execute_workflow(&mut self, workflow: &Workflow, decoded: &Decoded) -> (r: Result<
        (),
        WorkflowResponseError,
    >)
        requires
            old(self)@.version + 101 <= u16::MAX,
        ensures
            final(self)@.id == old(self)@.id,
            final(self)@.parent_id == old(self)@.parent_id,
            final(self)@.payload == old(self)@.payload,
            final(self)@.tenant == old(self)@.tenant,
            final(self)@.origin == old(self)@.origin,
            final(self)@.metadata == old(self)@.metadata,
            final(self)@.audit.len() >= old(self)@.audit.len(),
            final(self)@.audit.take(old(self)@.audit.len() as int) == old(self)@.audit,
            final(self)@.version - old(self)@.version == final(self)@.audit.len() - old(
                self,
            )@.audit.len(),
            old(self)@.audit.len() <= 100 ==> final(self)@.audit.len() <= 101,
            old(self)@.audit.len() > 100 ==> r is Err && final(self)@ == old(self)@,
            exists|trace: Seq<MessageView>| #[trigger]
                ran(trace, old(self)@, final(self)@, r, *workflow, *decoded),
            r is Ok ==> quiescent(final(self)@, *workflow) && final(self)@.audit.len() <= 100,
            r matches Err(e) ==> {
                &&& e.workflow_id@ == workflow.id@
                &&& e.version == workflow.version
                &&& e.code == 500
                &&& if final(self)@.audit.len() > 100 {
                    e.desciption@ == overflow_text()
                } else {
                    exists|i: int, failure: FunctionResponseError| #[trigger]
                        stopped_by(final(self)@, *workflow, e.desciption@, i, failure)
                }
            },
    {
        let ghost before = self@;
        let ghost mut trace: Seq<MessageView> = seq![self@];
        loop
            invariant
                before == old(self)@,
                is_trace(trace, *workflow, *decoded),
                trace[0] == before,
                trace.last() == self@,
                before.version + 101 <= u16::MAX,
                self@.id == before.id,
                self@.parent_id == before.parent_id,
                self@.payload == before.payload,
                self@.tenant == before.tenant,
                self@.origin == before.origin,
                self@.metadata == before.metadata,
                self@.audit.len() >= before.audit.len(),
                self@.audit.take(before.audit.len() as int) == before.audit,
                self@.version - before.version == self@.audit.len() - before.audit.len(),
                before.audit.len() <= 100 ==> self@.audit.len() <= 101,
                before.audit.len() > 100 ==> self@ == before,
            decreases 101 - self@.audit.len(),
        {
            if self.audit.len() > AUDIT_LIMIT {
                let failure = WorkflowResponseError::new(
                    workflow.id.clone(),
                    workflow.version,
                    500,
                    String::from_str("Audit overflow: the audit trail holds more than 100 entries"),
                );
                assert(ran(
                    trace,
                    before,
                    self@,
                    Err::<(), WorkflowResponseError>(failure),
                    *workflow,
                    *decoded,
                ));
                return Err(failure);
            }
            let i = match self.next_task(workflow) {
                Some(i) => i,
                None => {
                    assert(ran(trace, before, self@, Ok::<(), WorkflowResponseError>(()), *workflow, *decoded));
                    return Ok(());
                },
            };
            let task = &workflow.tasks[i];
            let ghost at_pass = self@;
            let done = self.execute_task(workflow.id.clone(), workflow.version, task, decoded);
            proof {
                lemma_executed_keeps(
                    at_pass,
                    self@,
                    done,
                    workflow.id@,
                    workflow.version,
                    *task,
                    *decoded,
                );
            }
            match done {
                Ok(_) => {
                    assert(self@.audit.take(before.audit.len() as int) =~= at_pass.audit.take(
                        before.audit.len() as int,
                    )) by {
                        assert(self@.audit.drop_last() == at_pass.audit);
                    }
                    let ghost mid = self@;
                    self.progress = Progress {
                        status: task.message_status,
                        workflow_id: workflow.id.clone(),
                        prev_task: task.id.clone(),
                        prev_status_code: Some(StatusCode::Success),
                        timestamp: now(),
                    };
                    proof {
                        let left = done->Ok_0;
                        assert(pass_ran(at_pass, self@, *workflow, *decoded, i as int, mid, left));
                        let longer = trace.push(self@);
                        assert forall|k: int| 0 <= k < longer.len() - 1 implies passed(
                            #[trigger] longer[k],
                            longer[k + 1],
                            *workflow,
                            *decoded,
                        ) by {
                            if k < trace.len() - 1 {
                                assert(passed(trace[k], trace[k + 1], *workflow, *decoded));
                            }
                        }
                        trace = longer;
                    }
                },
                Err(e) => {
                    let ghost mid = self@;
                    self.progress = Progress {
                        status: MessageStatus::Failed,
                        workflow_id: workflow.id.clone(),
                        prev_task: task.id.clone(),
                        prev_status_code: Some(StatusCode::Failure),
                        timestamp: now(),
                    };
                    let text = join("Task execution failed: ", e.to_string().as_str());
                    assert(text@ == task_failure_text(e));
                    assert(stopped_by(self@, *workflow, text@, i as int, e));
                    assert(pass_failed(at_pass, self@, *workflow, *decoded, i as int, mid, e));
                    let failure = WorkflowResponseError::new(
                        workflow.id.clone(),
                        workflow.version,
                        500,
                        text,
                    );
                    assert(ran(
                        trace,
                        before,
                        self@,
                        Err::<(), WorkflowResponseError>(failure),
                        *workflow,
                        *decoded,
                    ));
                    return Err(failure);
                },
            }
        }
    }
}

} // verus!
