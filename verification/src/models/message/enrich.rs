//! The enrich task: writes the values of a list of rules into the data, all of
//! them or none.
use crate::json::{Json, JsonValue};
use crate::logic::{apply, evaluation, outcome_view};
use crate::models::message::auditlog::{changes_view, AuditLog, ChangeLog, ChangeLogView};
use crate::models::message::base::{
    lemma_rollback_restores, logged, optional_text, path_accepted, rolled_back, undo_log, updated,
    writes_in_place, written, Message, MessageView,
};
use crate::models::message::errors::FunctionResponseError;
use crate::models::message::fetch::{described, description_or, task_recorded};
use crate::models::message::progress::{ProgressView, StatusCode};
use crate::stamp::now;
use crate::text::join;
use vstd::prelude::*;

verus! {

/// A rule of an enrichment: the field to write, the logic that gives the
/// value, and a description of the change.
#[derive(Clone, Debug, PartialEq)]
pub struct EnrichmentRules {
    pub field: String,
    pub logic: Json,
    pub description: Option<String>,
}

/// A rule with what its logic evaluated to: a value, or the text of an
/// error.
#[derive(Debug, PartialEq)]
pub struct EvaluatedRule {
    pub field: String,
    pub outcome: Result<Json, String>,
    pub description: Option<String>,
}

/// The value of an [`EvaluatedRule`].
pub ghost struct Step {
    pub field: Seq<char>,
    pub outcome: Result<JsonValue, Seq<char>>,
    pub description: Option<Seq<char>>,
}

impl View for EvaluatedRule {
    type V = Step;

    open spec fn view(&self) -> Step {
        Step {
            field: self.field@,
            outcome: outcome_view(self.outcome),
            description: optional_text(self.description),
        }
    }
}

/// The values of a list of evaluated rules.
pub open spec fn steps_view(steps: Seq<EvaluatedRule>) -> Seq<Step> {
    Seq::new(steps.len(), |i: int| steps[i]@)
}

/// What a rule comes to against a context.
pub open spec fn evaluated(rule: EnrichmentRules, context: JsonValue) -> Step {
    Step {
        field: rule.field@,
        outcome: evaluation(rule.logic@, context),
        description: optional_text(rule.description),
    }
}

/// What a list of rules comes to against a context. The context is the same
/// for every rule: no rule sees what an earlier one wrote.
pub open spec fn all_evaluated(rules: Seq<EnrichmentRules>, context: JsonValue) -> Seq<Step> {
    Seq::new(rules.len(), |i: int| evaluated(rules[i], context))
}

/// Where a run of steps stands: the data, the undo log, the changes to
/// record, and the failure that stopped it, as a function's name and a
/// message.
pub ghost struct Run {
    pub data: JsonValue,
    pub log: Seq<(Seq<char>, JsonValue)>,
    pub changes: Seq<ChangeLogView>,
    pub failure: Option<Failure>,
}

/// The failure that stops a run: the name of the function that failed, and
/// its message.
pub ghost struct Failure {
    pub function: Seq<char>,
    pub message: Seq<char>,
}

/// The change that a step records.
pub open spec fn step_change(step: Step) -> ChangeLogView {
    ChangeLogView {
        field: step.field,
        old_value: None,
        new_value: Some(step.outcome->Ok_0),
        reason: described(step.description, "Enriched field "@ + step.field),
    }
}

/// A run after one more step. A step whose logic failed stops the run, and so
/// does one whose field is not an accepted path; any other writes its value
/// and records its change. A run that has stopped stays as it is.
pub open spec fn stepped(run: Run, step: Step) -> Run {
    if run.failure is Some {
        run
    } else {
        match step.outcome {
            Err(e) => Run {
                failure: Some(
                    Failure { function: "Enrichment"@, message: "Rule application failed: "@ + e },
                ),
                ..run
            },
            Ok(value) => if !path_accepted(step.field) {
                Run {
                    failure: Some(Failure { function: "Update"@, message: "Invalid field path"@ }),
                    ..run
                }
            } else {
                Run {
                    data: updated(run.data, step.field, value),
                    log: logged(Some(run.log), run.data, step.field)->0,
                    changes: run.changes.push(step_change(step)),
                    failure: None,
                }
            },
        }
    }
}

/// The run of a list of steps, in order, from `data`.
pub open spec fn run_of(data: JsonValue, steps: Seq<Step>) -> Run
    decreases steps.len(),
{
    if steps.len() == 0 {
        Run { data, log: Seq::empty(), changes: Seq::empty(), failure: None }
    } else {
        stepped(run_of(data, steps.drop_last()), steps.last())
    }
}

/// A run that has stopped after some of its steps is the run of all of them.
pub proof fn lemma_stopped_run(data: JsonValue, steps: Seq<Step>, at: int)
    requires
        0 <= at <= steps.len(),
        run_of(data, steps.take(at)).failure is Some,
    ensures
        run_of(data, steps) == run_of(data, steps.take(at)),
    decreases steps.len() - at,
{
    if at < steps.len() {
        assert(steps.take(at + 1).drop_last() =~= steps.take(at));
        lemma_stopped_run(data, steps, at + 1);
    } else {
        assert(steps.take(at) =~= steps);
    }
}

/// The writes that a run made: the field and the value of each step before
/// the one that stopped it.
pub open spec fn writes_of(data: JsonValue, steps: Seq<Step>) -> Seq<(Seq<char>, JsonValue)>
    decreases steps.len(),
{
    if steps.len() == 0 {
        Seq::empty()
    } else if stepped(run_of(data, steps.drop_last()), steps.last()).failure is Some {
        writes_of(data, steps.drop_last())
    } else {
        writes_of(data, steps.drop_last()).push((steps.last().field, steps.last().outcome->Ok_0))
    }
}

/// A run's data and undo log are those of its writes.
pub proof fn lemma_run_writes(data: JsonValue, steps: Seq<Step>)
    ensures
        run_of(data, steps).data == written(data, writes_of(data, steps)),
        run_of(data, steps).log == undo_log(data, writes_of(data, steps)),
    decreases steps.len(),
{
    if steps.len() > 0 {
        lemma_run_writes(data, steps.drop_last());
        let before = run_of(data, steps.drop_last());
        if stepped(before, steps.last()).failure is None {
            let writes = writes_of(data, steps);
            assert(writes.drop_last() =~= writes_of(data, steps.drop_last()));
        }
    }
}

/// Atomicity: an enrichment that stops after writes made in place, and is
/// rolled back, leaves the data as it was.
pub proof fn lemma_failed_run_restores(data: JsonValue, steps: Seq<Step>)
    requires
        writes_in_place(data, writes_of(data, steps)),
    ensures
        rolled_back(run_of(data, steps).data, run_of(data, steps).log) == data,
{
    lemma_run_writes(data, steps);
    lemma_rollback_restores(data, writes_of(data, steps));
}

/// What an enrichment of `before` by `steps` leaves: where the run stops, the
/// failure that stopped it, the data rolled back, and nothing recorded; where
/// it does not, the data of the run, and the task recorded with the changes
/// of the run. Either way the progress names the workflow and the task, and
/// says how the task ended, and no transaction is left open.
pub open spec fn enriched(
    before: MessageView,
    after: MessageView,
    r: Result<(), FunctionResponseError>,
    steps: Seq<Step>,
    description: Option<Seq<char>>,
    workflow: Seq<char>,
    workflow_version: u16,
    task: Seq<char>,
) -> bool {
    let run = run_of(before.data, steps);
    &&& r is Err == run.failure is Some
    &&& r matches Err(e) ==> {
        &&& e.function@ == run.failure->0.function
        &&& e.code == 400
        &&& e.message@ == run.failure->0.message
        &&& after == (MessageView {
            data: rolled_back(run.data, run.log),
            progress: ProgressView {
                workflow_id: workflow,
                prev_task: task,
                prev_status_code: Some(StatusCode::Failure),
                timestamp: after.progress.timestamp,
                ..before.progress
            },
            transaction_changes: None,
            ..before
        })
    }
    &&& r is Ok ==> {
        &&& after == (MessageView {
            data: run.data,
            progress: ProgressView {
                workflow_id: workflow,
                prev_task: task,
                prev_status_code: Some(StatusCode::Success),
                timestamp: after.progress.timestamp,
                ..before.progress
            },
            transaction_changes: None,
            audit: after.audit,
            version: after.version,
            ..before
        })
        &&& task_recorded(
            before,
            after,
            workflow,
            workflow_version,
            task,
            described(description, "Enrichment applied"@),
            run.changes,
        )
    }
}

/// The value of a rule.
pub ghost struct RuleSpec {
    pub field: Seq<char>,
    pub logic: JsonValue,
    pub description: Option<Seq<char>>,
}

impl View for EnrichmentRules {
    type V = RuleSpec;

    open spec fn view(&self) -> RuleSpec {
        RuleSpec {
            field: self.field@,
            logic: self.logic@,
            description: optional_text(self.description),
        }
    }
}

/// The values of a list of rules.
pub open spec fn rules_view(rules: Seq<EnrichmentRules>) -> Seq<RuleSpec> {
    Seq::new(rules.len(), |i: int| rules[i]@)
}

/// What a list of rules, given by their values, comes to against a context.
pub open spec fn steps_of(rules: Seq<RuleSpec>, context: JsonValue) -> Seq<Step> {
    Seq::new(
        rules.len(),
        |i: int|
            Step {
                field: rules[i].field,
                outcome: evaluation(rules[i].logic, context),
                description: rules[i].description,
            },
    )
}

/// The description that a document gives: none for null, the text for a
/// text. Any other document gives no description at all.
pub open spec fn description_in(v: JsonValue) -> Option<Option<Seq<char>>> {
    match v {
        JsonValue::Null => Some(None),
        JsonValue::Text(t) => Some(Some(t)),
        _ => None,
    }
}

/// The rule that a document describes, if it describes one: an object with a
/// text under `field`, any document under `logic` and, if it has the key
/// `description`, a text or null there; or an array of exactly these three,
/// in this order.
pub open spec fn rule_in(v: JsonValue) -> Option<RuleSpec> {
    match v {
        JsonValue::Object(fields) => {
            let described = if fields.contains_key("description"@) {
                description_in(fields["description"@])
            } else {
                Some(None)
            };
            if fields.contains_key("field"@) && fields["field"@] is Text && fields.contains_key(
                "logic"@,
            ) && described is Some {
                Some(
                    RuleSpec {
                        field: fields["field"@]->Text_0,
                        logic: fields["logic"@],
                        description: described->0,
                    },
                )
            } else {
                None
            }
        },
        JsonValue::Array(items) => {
            if items.len() == 3 && items[0] is Text && description_in(items[2]) is Some {
                Some(
                    RuleSpec {
                        field: items[0]->Text_0,
                        logic: items[1],
                        description: description_in(items[2])->0,
                    },
                )
            } else {
                None
            }
        },
        _ => None,
    }
}

/// The rules that a document lists, if it is an array of rules.
pub open spec fn rules_in(v: JsonValue) -> Option<Seq<RuleSpec>> {
    if v is Array && (forall|i: int| 0 <= i < v->Array_0.len() ==> rule_in(#[trigger] v->Array_0[i]) is Some) {
        Some(Seq::new(v->Array_0.len(), |i: int| rule_in(v->Array_0[i])->0))
    } else {
        None
    }
}

/// Reads the description that a document gives.
fn read_description(v: &Json) -> (r: Option<Option<String>>)
    ensures
        r is Some == description_in(v@) is Some,
        r matches Some(d) ==> optional_text(d) == description_in(v@)->0,
{
    match v {
        Json::Null => Some(None),
        Json::Text(t) => Some(Some(t.clone())),
        _ => None,
    }
}

/// Reads the text that a document is.
fn read_text(v: &Json) -> (r: Option<String>)
    ensures
        r is Some == v@ is Text,
        r matches Some(t) ==> t@ == v@->Text_0,
{
    match v {
        Json::Text(t) => Some(t.clone()),
        _ => None,
    }
}

impl EnrichmentRules {
    /// Reads the rule that a document describes.
    pub fn read(v: &Json) -> (r: Option<EnrichmentRules>)
        ensures
            r is Some == rule_in(v@) is Some,
            r matches Some(rule) ==> rule@ == rule_in(v@)->0,
    {
        match v {
            Json::Object(_) => {
                let field = match v.get(&String::from_str("field")) {
                    Some(f) => match read_text(f) {
                        Some(t) => t,
                        None => {
                            return None;
                        },
                    },
                    None => {
                        return None;
                    },
                };
                let logic = match v.get(&String::from_str("logic")) {
                    Some(l) => l.clone(),
                    None => {
                        return None;
                    },
                };
                let description = match v.get(&String::from_str("description")) {
                    Some(d) => match read_description(d) {
                        Some(d) => d,
                        None => {
                            return None;
                        },
                    },
                    None => None,
                };
                Some(EnrichmentRules { field, logic, description })
            },
            Json::Array(items) => {
                if items.len() != 3 {
                    return None;
                }
                assert(v@->Array_0 == crate::json::items_view(items@));
                let field = match read_text(&items[0]) {
                    Some(t) => t,
                    None => {
                        return None;
                    },
                };
                let description = match read_description(&items[2]) {
                    Some(d) => d,
                    None => {
                        return None;
                    },
                };
                Some(EnrichmentRules { field, logic: items[1].clone(), description })
            },
            _ => None,
        }
    }

    /// Reads the rules that a document lists.
    pub fn read_list(v: &Json) -> (r: Option<Vec<EnrichmentRules>>)
        ensures
            r is Some == rules_in(v@) is Some,
            r matches Some(rules) ==> rules_view(rules@) == rules_in(v@)->0,
    {
        match v {
            Json::Array(items) => {
                assert(v@->Array_0 == crate::json::items_view(items@));
                let mut rules: Vec<EnrichmentRules> = Vec::new();
                let mut i: usize = 0;
                while i < items.len()
                    invariant
                        v@ is Array,
                        v@->Array_0 == crate::json::items_view(items@),
                        i <= items.len(),
                        rules@.len() == i,
                        forall|k: int|
                            0 <= k < i ==> rule_in(#[trigger] v@->Array_0[k]) is Some
                                && rules@[k]@ == rule_in(v@->Array_0[k])->0,
                    decreases items.len() - i,
                {
                    match EnrichmentRules::read(&items[i]) {
                        Some(rule) => {
                            rules.push(rule);
                        },
                        None => {
                            assert(rule_in(v@->Array_0[i as int]) is None);
                            return None;
                        },
                    }
                    i = i + 1;
                }
                assert(rules_view(rules@) =~= rules_in(v@)->0);
                Some(rules)
            },
            _ => None,
        }
    }
}

/// Evaluating rules is evaluating their values.
pub proof fn lemma_evaluated_by_value(rules: Seq<EnrichmentRules>, context: JsonValue)
    ensures
        all_evaluated(rules, context) == steps_of(rules_view(rules), context),
{
    assert(all_evaluated(rules, context) =~= steps_of(rules_view(rules), context));
}

/// Evaluates every rule against `context`.
pub fn evaluate_rules(rules: Vec<EnrichmentRules>, context: &Json) -> (steps: Vec<EvaluatedRule>)
    ensures
        steps_view(steps@) == all_evaluated(rules@, context@),
{
    let mut steps: Vec<EvaluatedRule> = Vec::new();
    let mut i: usize = 0;
    while i < rules.len()
        invariant
            i <= rules.len(),
            steps@.len() == i,
            forall|k: int| 0 <= k < i ==> (#[trigger] steps@[k])@ == evaluated(rules@[k], context@),
        decreases rules.len() - i,
    {
        let rule = &rules[i];
        let outcome = apply(&rule.logic, context);
        let description = match &rule.description {
            Some(d) => Some(d.clone()),
            None => None,
        };
        steps.push(EvaluatedRule { field: rule.field.clone(), outcome, description });
        i = i + 1;
    }
    assert(steps_view(steps@) =~= all_evaluated(rules@, context@));
    steps
}

impl Message {
    /// Enrich, given what each rule evaluated to: opens a transaction, writes
    /// the value of each step at its field, in order, and commits; the task is
    /// recorded with one change for each step. The first step whose logic
    /// failed, or whose field is not an accepted path, stops the task: what was
    /// written is rolled back and the failure is handed back.
    pub fn enrich_evaluated(
        &mut self,
        steps: Vec<EvaluatedRule>,
        description: Option<String>,
        workflow_id: String,
        workflow_version: u16,
        task_id: String,
    ) -> (r: Result<(), FunctionResponseError>)
        requires
            old(self)@.version < u16::MAX,
        ensures
            enriched(
                old(self)@,
                final(self)@,
                r,
                steps_view(steps@),
                optional_text(description),
                workflow_id@,
                workflow_version,
                task_id@,
            ),
    {
        let start_time = now();
        let ghost before = self@;
        let ghost all = steps_view(steps@);
        let mut changes: Vec<ChangeLog> = Vec::new();
        self.transaction_begin(workflow_id.clone(), task_id.clone());
        let ghost begun = self@;
        let mut i: usize = 0;
        assert(all.take(0) =~= Seq::<Step>::empty());
        assert(changes_view(changes@) =~= Seq::<ChangeLogView>::empty());
        while i < steps.len()
            invariant
                i <= steps.len(),
                before == old(self)@,
                all == steps_view(steps@),
                run_of(before.data, all.take(i as int)).failure is None,
                self@ == (MessageView {
                    data: run_of(before.data, all.take(i as int)).data,
                    transaction_changes: Some(run_of(before.data, all.take(i as int)).log),
                    ..begun
                }),
                changes_view(changes@) == run_of(before.data, all.take(i as int)).changes,
                begun == (MessageView {
                    progress: ProgressView {
                        workflow_id: workflow_id@,
                        prev_task: task_id@,
                        ..before.progress
                    },
                    transaction_changes: Some(Seq::empty()),
                    ..before
                }),
            decreases steps.len() - i,
        {
            let step = &steps[i];
            let ghost so_far = run_of(before.data, all.take(i as int));
            assert(all.take(i + 1).drop_last() =~= all.take(i as int));
            assert(all.take(i + 1).last() == step@);
            match &step.outcome {
                Err(e) => {
                    self.transaction_rollback();
                    proof {
                        let next = run_of(before.data, all.take(i + 1));
                        assert(step@.outcome == Err::<JsonValue, Seq<char>>(e@));
                        assert(next == stepped(so_far, step@));
                        assert(next.failure is Some);
                        lemma_stopped_run(before.data, all, i + 1);
                        assert(run_of(before.data, all) == next);
                    }
                    return Err(
                        FunctionResponseError::new(
                            String::from_str("Enrichment"),
                            400,
                            join("Rule application failed: ", e.as_str()),
                        ),
                    );
                },
                Ok(value) => {
                    match self.update(step.field.as_str(), value.clone()) {
                        Err(e) => {
                            self.transaction_rollback();
                            proof {
                                let next = run_of(before.data, all.take(i + 1));
                                assert(step@.outcome == Ok::<JsonValue, Seq<char>>(value@));
                                assert(next == stepped(so_far, step@));
                                assert(next.failure is Some);
                                lemma_stopped_run(before.data, all, i + 1);
                                assert(run_of(before.data, all) == next);
                            }
                            return Err(e);
                        },
                        Ok(()) => {},
                    }
                    let reason = match &step.description {
                        Some(d) => d.clone(),
                        None => join("Enriched field ", step.field.as_str()),
                    };
                    let ghost recorded = changes@;
                    let change = ChangeLog::new(step.field.clone(), reason, None, Some(value.clone()));
                    changes.push(change);
                    assert(changes_view(changes@) =~= changes_view(recorded).push(step_change(step@)));
                },
            }
            i = i + 1;
        }
        assert(all.take(steps.len() as int) =~= all);
        self.transaction_commit();
        let entry = AuditLog::new(
            workflow_id,
            workflow_version,
            task_id,
            start_time,
            description_or(description, "Enrichment applied"),
            changes,
        );
        let ghost committed = self@;
        self.record(entry);
        assert(self@.audit.drop_last() =~= committed.audit);
        Ok(())
    }

    /// Enrich: evaluates the logic of each rule against `data`, then writes
    /// the values as [`Message::enrich_evaluated`] does. Rules are applied in
    /// the order given; a later rule sees what an earlier one wrote in the
    /// message's data, but not in `data`, the context of the evaluation.
    pub fn enrich(
        &mut self,
        rules: Vec<EnrichmentRules>,
        data: Json,
        description: Option<String>,
        workflow_id: String,
        workflow_version: u16,
        task_id: String,
    ) -> (r: Result<(), FunctionResponseError>)
        requires
            old(self)@.version < u16::MAX,
        ensures
            enriched(
                old(self)@,
                final(self)@,
                r,
                all_evaluated(rules@, data@),
                optional_text(description),
                workflow_id@,
                workflow_version,
                task_id@,
            ),
    {
        let steps = evaluate_rules(rules, &data);
        self.enrich_evaluated(steps, description, workflow_id, workflow_version, task_id)
    }
}

} // verus!
