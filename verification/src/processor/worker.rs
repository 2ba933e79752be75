//! The worker: takes a record, runs the workflow that matches its message,
//! produces the result and commits the record, in this order.
use crate::models::message::base::{Message, MessageView};
use crate::models::message::errors::{workflow_error_text, WorkflowResponseError};
use crate::models::message::execute::ran;
use crate::models::message::matching::workflow_matches;
use crate::models::message::parse::Decoded;
use crate::models::workflow::Workflow;
use crate::processor::config::AppConfig;
use crate::text::join;
use vstd::prelude::*;

verus! {

/// Why a record was not processed.
#[derive(Debug, PartialEq)]
pub enum ProcessorError {
    KafkaError(String),
    ConfigError(String),
    ProcessingError(String),
    SerializationError(String),
}

/// The value of a [`ProcessorError`].
pub ghost enum ProcessorFailure {
    Kafka(Seq<char>),
    Config(Seq<char>),
    Processing(Seq<char>),
    Serialization(Seq<char>),
}

impl View for ProcessorError {
    type V = ProcessorFailure;

    open spec fn view(&self) -> ProcessorFailure {
        match self {
            ProcessorError::KafkaError(e) => ProcessorFailure::Kafka(e@),
            ProcessorError::ConfigError(e) => ProcessorFailure::Config(e@),
            ProcessorError::ProcessingError(e) => ProcessorFailure::Processing(e@),
            ProcessorError::SerializationError(e) => ProcessorFailure::Serialization(e@),
        }
    }
}

impl ProcessorError {
    /// The line that reports the error.
    pub fn to_string(&self) -> (r: String)
        ensures
            r@ == match self@ {
                ProcessorFailure::Kafka(e) => "Kafka error: "@ + e,
                ProcessorFailure::Config(e) => "Configuration error: "@ + e,
                ProcessorFailure::Processing(e) => "Processing error: "@ + e,
                ProcessorFailure::Serialization(e) => "Serialization error: "@ + e,
            },
    {
        match self {
            ProcessorError::KafkaError(e) => join("Kafka error: ", e.as_str()),
            ProcessorError::ConfigError(e) => join("Configuration error: ", e.as_str()),
            ProcessorError::ProcessingError(e) => join("Processing error: ", e.as_str()),
            ProcessorError::SerializationError(e) => join("Serialization error: ", e.as_str()),
        }
    }
}

/// Where a record came from.
#[derive(Debug, Clone, PartialEq)]
pub struct MessageMetadata {
    pub topic: String,
    pub partition: i32,
    pub offset: i64,
    pub key: Vec<u8>,
}

/// The topic that processed messages are produced to.
pub fn output_topic() -> (r: &'static str)
    ensures
        r@ == "message_updates"@,
{
    "message_updates"
}

/// The seconds that a produce may take to be acknowledged.
pub const PRODUCE_TIMEOUT_SECONDS: u64 = 5;

/// A record's payload must not be empty.
pub fn check_payload(msg: &[u8]) -> (r: Result<(), ProcessorError>)
    ensures
        r is Err == (msg@.len() == 0),
        r matches Err(e) ==> e@ == ProcessorFailure::Processing("Cannot process empty message"@),
{
    if msg.len() == 0 {
        Err(ProcessorError::ProcessingError(String::from_str("Cannot process empty message")))
    } else {
        Ok(())
    }
}

/// True when the workflow at place `i` takes the message.
pub open spec fn takes(m: MessageView, workflows: Seq<Workflow>, i: int) -> bool {
    workflow_matches(
        m.tenant,
        m.origin,
        m.metadata,
        workflows[i].tenant@,
        workflows[i].origin@,
        workflows[i].condition@,
    )
}

/// True when the workflow at place `i` is the first that takes the message.
pub open spec fn first_taking(m: MessageView, workflows: Seq<Workflow>, i: int) -> bool {
    &&& 0 <= i < workflows.len()
    &&& takes(m, workflows, i)
    &&& forall|k: int| 0 <= k < i ==> !takes(m, workflows, k)
}

/// The place of the first workflow that takes the message: the first match
/// wins.
pub fn matching_workflow(message: &Message, workflows: &Vec<Workflow>) -> (r: Option<usize>)
    ensures
        match r {
            Some(i) => first_taking(message@, workflows@, i as int),
            None => forall|k: int| 0 <= k < workflows@.len() ==> !takes(message@, workflows@, k),
        },
{
    let mut i: usize = 0;
    while i < workflows.len()
        invariant
            i <= workflows@.len(),
            forall|k: int| 0 <= k < i ==> !takes(message@, workflows@, k),
        decreases workflows.len() - i,
    {
        let workflow = &workflows[i];
        if message.workflow_match(
            workflow.tenant.as_str(),
            workflow.origin.as_str(),
            &workflow.condition,
        ) {
            return Some(i);
        }
        i = i + 1;
    }
    None
}

/// The failure of a record whose workflow failed.
pub open spec fn workflow_failure(e: WorkflowResponseError) -> ProcessorFailure {
    ProcessorFailure::Processing(
        "Workflow execution error: "@ + workflow_error_text(
            e.workflow_id@,
            e.version,
            e.code,
            e.desciption@,
        ),
    )
}

/// True when processing `before` with the workflows left `after` and handed
/// back `r`: a message that no workflow takes passes through as it is, and
/// any other is run through the first workflow that takes it.
pub open spec fn processed(
    before: MessageView,
    after: MessageView,
    r: Result<(), ProcessorError>,
    workflows: Seq<Workflow>,
    decoded: Decoded,
) -> bool {
    if forall|k: int| 0 <= k < workflows.len() ==> !takes(before, workflows, k) {
        r is Ok && after == before
    } else {
        exists|i: int, trace: Seq<MessageView>, done: Result<(), WorkflowResponseError>|
            first_taking(before, workflows, i) && #[trigger] ran(
                trace,
                before,
                after,
                done,
                workflows[i],
                decoded,
            ) && match done {
                Ok(_) => r is Ok,
                Err(e) => r matches Err(failure) && failure@ == workflow_failure(e),
            }
    }
}

/// Processes a message: runs the first workflow that takes it, if there is
/// one.
pub fn process_message(message: &mut Message, workflows: &Vec<Workflow>, decoded: &Decoded) -> (r:
    Result<(), ProcessorError>)
    requires
        old(message)@.version + 101 <= u16::MAX,
    ensures
        processed(old(message)@, final(message)@, r, workflows@, *decoded),
{
    match matching_workflow(message, workflows) {
        None => Ok(()),
        Some(i) => {
            let ghost before = message@;
            let done = message.execute_workflow(&workflows[i], decoded);
            let ghost trace = choose|trace: Seq<MessageView>| #[trigger]
                ran(trace, before, message@, done, workflows@[i as int], *decoded);
            assert(takes(before, workflows@, i as int));
            match done {
                Ok(()) => {
                    assert(ran(trace, before, message@, done, workflows@[i as int], *decoded));
                    Ok(())
                },
                Err(e) => {
                    let failure = ProcessorError::ProcessingError(
                        join("Workflow execution error: ", e.to_string().as_str()),
                    );
                    assert(ran(trace, before, message@, done, workflows@[i as int], *decoded));
                    Err(failure)
                },
            }
        },
    }
}

// ---------------------------------------------------------------------------
// The order of the steps that handle one record.
// ---------------------------------------------------------------------------
/// Where the handling of a record stands.
#[derive(Clone, Copy, Debug, PartialEq, Eq, Structural)]
pub enum Stage {
    /// The record was pulled and a permit is held; the message is being
    /// processed.
    Consumed,
    /// The processed message is being produced.
    Producing,
    /// The produce was acknowledged; the record's offset is being stored.
    Committing,
    /// The record is committed.
    Done,
    /// A step failed; the record is not committed and will be delivered
    /// again.
    Aborted,
}

/// What happened outside.
#[derive(Clone, Copy, Debug, PartialEq, Eq, Structural)]
pub enum Event {
    /// The message was deserialised, processed and serialised, or that failed.
    Processed { ok: bool },
    /// The broker acknowledged the produced record in time, or did not.
    ProduceAcknowledged { ok: bool },
    /// The consumer stored the record's offset, or failed to.
    OffsetStored { ok: bool },
}

/// What to do next.
#[derive(Clone, Copy, Debug, PartialEq, Eq, Structural)]
pub enum Action {
    /// Produce the processed message, under the record's key.
    Produce,
    /// Store the record's offset; the position committed is the one after
    /// the record.
    StoreOffset,
    /// Release the permit: the record is handled.
    Release,
    /// Nothing: the event does not belong to the stage.
    Ignore,
}

/// The step of the handling of a record: an event that belongs to the stage
/// moves it on when it reports success, and aborts it when it reports
/// failure; any other event is ignored.
pub open spec fn transition(stage: Stage, event: Event) -> (Stage, Action) {
    match (stage, event) {
        (Stage::Consumed, Event::Processed { ok }) => if ok {
            (Stage::Producing, Action::Produce)
        } else {
            (Stage::Aborted, Action::Release)
        },
        (Stage::Producing, Event::ProduceAcknowledged { ok }) => if ok {
            (Stage::Committing, Action::StoreOffset)
        } else {
            (Stage::Aborted, Action::Release)
        },
        (Stage::Committing, Event::OffsetStored { ok }) => if ok {
            (Stage::Done, Action::Release)
        } else {
            (Stage::Aborted, Action::Release)
        },
        _ => (stage, Action::Ignore),
    }
}

/// Decides the next stage and what to do, given what happened.
pub fn advance(stage: Stage, event: Event) -> (r: (Stage, Action))
    ensures
        r == transition(stage, event),
{
    match (stage, event) {
        (Stage::Consumed, Event::Processed { ok }) => if ok {
            (Stage::Producing, Action::Produce)
        } else {
            (Stage::Aborted, Action::Release)
        },
        (Stage::Producing, Event::ProduceAcknowledged { ok }) => if ok {
            (Stage::Committing, Action::StoreOffset)
        } else {
            (Stage::Aborted, Action::Release)
        },
        (Stage::Committing, Event::OffsetStored { ok }) => if ok {
            (Stage::Done, Action::Release)
        } else {
            (Stage::Aborted, Action::Release)
        },
        _ => (stage, Action::Ignore),
    }
}

/// The stage that a record is in after a list of events, from `Consumed`.
pub open spec fn stage_after(events: Seq<Event>) -> Stage
    decreases events.len(),
{
    if events.len() == 0 {
        Stage::Consumed
    } else {
        transition(stage_after(events.drop_last()), events.last()).0
    }
}

/// What was done in answer to a list of events, from `Consumed`.
pub open spec fn actions_after(events: Seq<Event>) -> Seq<Action>
    decreases events.len(),
{
    if events.len() == 0 {
        Seq::empty()
    } else {
        actions_after(events.drop_last()).push(
            transition(stage_after(events.drop_last()), events.last()).1,
        )
    }
}

/// At least once: the offset of a record is stored only in answer to the
/// acknowledgement of its produce, which was asked for before; and a record
/// is done only when its produce was acknowledged and its offset stored.
pub proof fn lemma_commit_follows_produce(events: Seq<Event>, j: int)
    requires
        0 <= j < events.len(),
        actions_after(events)[j] == Action::StoreOffset,
    ensures
        events[j] == (Event::ProduceAcknowledged { ok: true }),
        stage_after(events.take(j)) == Stage::Producing,
        exists|k: int| 0 <= k < j && #[trigger] actions_after(events)[k] == Action::Produce,
    decreases events.len(),
{
    lemma_actions_len(events);
    if j < events.len() - 1 {
        lemma_actions_len(events.drop_last());
        lemma_commit_follows_produce(events.drop_last(), j);
        assert(events.drop_last().take(j) =~= events.take(j));
        let k = choose|k: int|
            0 <= k < j && #[trigger] actions_after(events.drop_last())[k] == Action::Produce;
        assert(actions_after(events)[k] == Action::Produce);
    } else {
        assert(events.take(j) =~= events.drop_last());
        lemma_producing_was_asked(events.drop_last());
        let k = choose|k: int|
            0 <= k < events.drop_last().len() && #[trigger] actions_after(events.drop_last())[k]
                == Action::Produce;
        assert(actions_after(events)[k] == Action::Produce);
    }
}

/// One action answers each event.
pub proof fn lemma_actions_len(events: Seq<Event>)
    ensures
        actions_after(events).len() == events.len(),
    decreases events.len(),
{
    if events.len() > 0 {
        lemma_actions_len(events.drop_last());
    }
}

/// A record that is being produced, committed or done had its produce asked
/// for.
pub proof fn lemma_producing_was_asked(events: Seq<Event>)
    requires
        stage_after(events) == Stage::Producing || stage_after(events) == Stage::Committing
            || stage_after(events) == Stage::Done,
    ensures
        exists|k: int| 0 <= k < events.len() && #[trigger] actions_after(events)[k] == Action::Produce,
    decreases events.len(),
{
    lemma_actions_len(events);
    if events.len() > 0 {
        let before = stage_after(events.drop_last());
        if transition(before, events.last()).1 == Action::Produce {
            assert(actions_after(events)[events.len() - 1] == Action::Produce);
        } else {
            lemma_actions_len(events.drop_last());
            lemma_producing_was_asked(events.drop_last());
            let k = choose|k: int|
                0 <= k < events.drop_last().len() && #[trigger] actions_after(
                    events.drop_last(),
                )[k] == Action::Produce;
            assert(actions_after(events)[k] == Action::Produce);
        }
    }
}

/// A record whose handling was aborted stays aborted, and no offset is
/// stored for it: it will be delivered again.
pub proof fn lemma_aborted_never_commits(events: Seq<Event>, more: Seq<Event>)
    requires
        stage_after(events) == Stage::Aborted,
    ensures
        stage_after(events + more) == Stage::Aborted,
        forall|j: int|
            events.len() <= j < events.len() + more.len() ==> #[trigger] actions_after(
                events + more,
            )[j] == Action::Ignore,
    decreases more.len(),
{
    lemma_actions_len(events + more);
    if more.len() == 0 {
        assert(events + more =~= events);
    } else {
        assert((events + more).drop_last() =~= events + more.drop_last());
        lemma_aborted_never_commits(events, more.drop_last());
        lemma_actions_len(events + more.drop_last());
    }
}

/// A record is done only after its produce was acknowledged and its offset
/// stored.
pub proof fn lemma_done_means_produced_and_committed(events: Seq<Event>)
    requires
        stage_after(events) == Stage::Done,
    ensures
        exists|j: int|
            0 <= j < events.len() && #[trigger] events[j] == (Event::ProduceAcknowledged {
                ok: true,
            }),
        exists|j: int|
            0 <= j < events.len() && #[trigger] events[j] == (Event::OffsetStored { ok: true }),
    decreases events.len(),
{
    if events.len() > 0 {
        let before = stage_after(events.drop_last());
        if before == Stage::Done {
            lemma_done_means_produced_and_committed(events.drop_last());
            let a = choose|j: int|
                0 <= j < events.drop_last().len() && #[trigger] events.drop_last()[j] == (
                Event::ProduceAcknowledged { ok: true });
            assert(events[a] == events.drop_last()[a]);
            let b = choose|j: int|
                0 <= j < events.drop_last().len() && #[trigger] events.drop_last()[j] == (
                Event::OffsetStored { ok: true });
            assert(events[b] == events.drop_last()[b]);
        } else {
            assert(before == Stage::Committing);
            assert(events[events.len() - 1] == (Event::OffsetStored { ok: true }));
            lemma_committing_was_acknowledged(events.drop_last());
            let a = choose|j: int|
                0 <= j < events.drop_last().len() && #[trigger] events.drop_last()[j] == (
                Event::ProduceAcknowledged { ok: true });
            assert(events[a] == events.drop_last()[a]);
        }
    }
}

/// A record whose offset is being stored had its produce acknowledged.
pub proof fn lemma_committing_was_acknowledged(events: Seq<Event>)
    requires
        stage_after(events) == Stage::Committing,
    ensures
        exists|j: int|
            0 <= j < events.len() && #[trigger] events[j] == (Event::ProduceAcknowledged {
                ok: true,
            }),
    decreases events.len(),
{
    if events.len() > 0 {
        let before = stage_after(events.drop_last());
        if before == Stage::Committing {
            lemma_committing_was_acknowledged(events.drop_last());
            let a = choose|j: int|
                0 <= j < events.drop_last().len() && #[trigger] events.drop_last()[j] == (
                Event::ProduceAcknowledged { ok: true });
            assert(events[a] == events.drop_last()[a]);
        } else {
            assert(events[events.len() - 1] == (Event::ProduceAcknowledged { ok: true }));
        }
    }
}

// ---------------------------------------------------------------------------
// The worker's settings and its bound on records in flight.
// ---------------------------------------------------------------------------
/// The worker: its configuration, its workflows and the number of records
/// that are being handled. No more records are in flight than the
/// configuration allows.
#[derive(Debug)]
pub struct Processor {
    pub(crate) config: AppConfig,
    pub(crate) workflows: Vec<Workflow>,
    pub(crate) in_flight: usize,
}

impl Processor {
    #[verifier::type_invariant]
    spec fn bounded(self) -> bool {
        self.in_flight <= self.config.maxconcurrency
    }

    /// The number of records in flight.
    pub closed spec fn spec_in_flight(&self) -> nat {
        self.in_flight as nat
    }

    /// The most records that may be in flight.
    pub closed spec fn spec_limit(&self) -> nat {
        self.config.maxconcurrency as nat
    }

    /// The workflows of the worker.
    pub closed spec fn spec_workflows(&self) -> Seq<Workflow> {
        self.workflows@
    }

    /// The configuration of the worker.
    pub closed spec fn spec_config(&self) -> AppConfig {
        self.config
    }

    /// A worker with no record in flight.
    pub fn new(config: AppConfig, workflows: Vec<Workflow>) -> (r: Self)
        ensures
            r.spec_in_flight() == 0,
            r.spec_limit() == config.maxconcurrency,
            r.spec_config() == config,
            r.spec_workflows() == workflows@,
    {
        Processor { config, workflows, in_flight: 0 }
    }

    /// The workflows of the worker.
    pub fn workflows(&self) -> (r: &Vec<Workflow>)
        ensures
            r@ == self.spec_workflows(),
    {
        &self.workflows
    }

    /// The configuration of the worker.
    pub fn config(&self) -> (r: &AppConfig)
        ensures
            *r == self.spec_config(),
            r.maxconcurrency == self.spec_limit(),
    {
        &self.config
    }

    /// The number of records in flight: never above the limit.
    pub fn in_flight(&self) -> (r: usize)
        ensures
            r == self.spec_in_flight(),
            r <= self.spec_limit(),
    {
        proof {
            use_type_invariant(self);
        }
        self.in_flight
    }

    /// The topics that the consumer subscribes to: the input topic of each
    /// workflow, in the order of the workflows.
    pub fn input_topics(&self) -> (r: Vec<String>)
        ensures
            r@.len() == self.spec_workflows().len(),
            forall|i: int|
                0 <= i < r@.len() ==> (#[trigger] r@[i])@ == self.spec_workflows()[i].input_topic@,
    {
        let mut topics: Vec<String> = Vec::new();
        let mut i: usize = 0;
        while i < self.workflows.len()
            invariant
                i <= self.workflows@.len(),
                topics@.len() == i,
                forall|k: int|
                    0 <= k < i ==> (#[trigger] topics@[k])@ == self.workflows@[k].input_topic@,
            decreases self.workflows.len() - i,
        {
            topics.push(self.workflows[i].input_topic.clone());
            i = i + 1;
        }
        topics
    }

    /// Takes a permit for one more record, where the limit allows it.
    pub fn acquire(&mut self) -> (r: bool)
        ensures
            r == (old(self).spec_in_flight() < old(self).spec_limit()),
            final(self).spec_limit() == old(self).spec_limit(),
            final(self).spec_config() == old(self).spec_config(),
            final(self).spec_workflows() == old(self).spec_workflows(),
            final(self).spec_in_flight() == old(self).spec_in_flight() + if r {
                1nat
            } else {
                0nat
            },
    {
        proof {
            use_type_invariant(&*self);
        }
        if self.in_flight < self.config.maxconcurrency {
            self.in_flight = self.in_flight + 1;
            true
        } else {
            false
        }
    }

    /// Gives back the permit of a record that is handled.
    pub fn release(&mut self)
        ensures
            final(self).spec_limit() == old(self).spec_limit(),
            final(self).spec_config() == old(self).spec_config(),
            final(self).spec_workflows() == old(self).spec_workflows(),
            final(self).spec_in_flight() == if old(self).spec_in_flight() > 0 {
                (old(self).spec_in_flight() - 1) as nat
            } else {
                0nat
            },
    {
        proof {
            use_type_invariant(&*self);
        }
        if self.in_flight > 0 {
            self.in_flight = self.in_flight - 1;
        }
    }
}

/// A setting of a broker client: a key and its value.
pub open spec fn setting(entry: (String, String), key: Seq<char>, value: Seq<char>) -> bool {
    entry.0@ == key && entry.1@ == value
}

/// The settings of the consumer: the group and the brokers of the
/// configuration, no automatic commit, and the earliest offset where none is
/// committed.
pub fn consumer_settings(config: &AppConfig) -> (r: Vec<(String, String)>)
    ensures
        r@.len() == 4,
        setting(r@[0], "group.id"@, config.kafkagroupid@),
        setting(r@[1], "bootstrap.servers"@, config.kafkabootstrapservers@),
        setting(r@[2], "enable.auto.commit"@, "false"@),
        setting(r@[3], "auto.offset.reset"@, "earliest"@),
{
    let mut settings: Vec<(String, String)> = Vec::new();
    settings.push((String::from_str("group.id"), config.kafkagroupid.clone()));
    settings.push((String::from_str("bootstrap.servers"), config.kafkabootstrapservers.clone()));
    settings.push((String::from_str("enable.auto.commit"), String::from_str("false")));
    settings.push((String::from_str("auto.offset.reset"), String::from_str("earliest")));
    settings
}

/// The settings of the producer: the brokers of the configuration, and five
/// seconds for a message to be delivered.
pub fn producer_settings(config: &AppConfig) -> (r: Vec<(String, String)>)
    ensures
        r@.len() == 2,
        setting(r@[0], "bootstrap.servers"@, config.kafkabootstrapservers@),
        setting(r@[1], "message.timeout.ms"@, "5000"@),
{
    let mut settings: Vec<(String, String)> = Vec::new();
    settings.push((String::from_str("bootstrap.servers"), config.kafkabootstrapservers.clone()));
    settings.push((String::from_str("message.timeout.ms"), String::from_str("5000")));
    settings
}

} // verus!
