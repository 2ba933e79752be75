use core_data::json::Json;
use core_data::models::message::enrich::EnrichmentRules;
use core_data::models::message::execute::TaskResult;
use core_data::models::message::{
    Decoded, Encoding, Message, MessageStatus, Payload, PayloadFormat, PayloadSchema, Progress,
    StatusCode,
};
use core_data::models::task::{FunctionType, Task};
use core_data::models::workflow::{Workflow, WorkflowStatus};
use core_data::processor::worker::{matching_workflow, process_message, ProcessorError};
use core_data::stamp::Timestamp;

fn text(s: &str) -> Json {
    Json::Text(s.to_string())
}

fn number(n: u64) -> Json {
    Json::Number(serde_json::Number::from(n))
}

fn object(entries: Vec<(&str, Json)>) -> Json {
    Json::Object(entries.into_iter().map(|(k, v)| (k.to_string(), v)).collect())
}

fn op(name: &str, operands: Vec<Json>) -> Json {
    object(vec![(name, Json::Array(operands))])
}

fn var(name: &str) -> Json {
    op("var", vec![text(name)])
}

fn message(workflow: &str, task: &str) -> Message {
    let payload = Payload::new_inline(
        Some(b"<Document/>".to_vec()),
        PayloadFormat::Xml,
        PayloadSchema::ISO20022,
        Encoding::Utf8,
    );
    Message::new(
        payload,
        "tenant".to_string(),
        "origin".to_string(),
        workflow.to_string(),
        1,
        task.to_string(),
        None,
    )
}

fn task(id: &str, status: MessageStatus, prev: &str, function: FunctionType, input: Json) -> Task {
    Task {
        id: id.to_string(),
        name: id.to_string(),
        description: format!("Task {}", id),
        message_status: status,
        prev_task: prev.to_string(),
        prev_status_code: Some(StatusCode::Success),
        condition: Json::Null,
        function,
        input,
    }
}

fn workflow(id: &str, tasks: Vec<Task>) -> Workflow {
    Workflow {
        id: id.to_string(),
        name: id.to_string(),
        description: String::new(),
        version: 4,
        tenant: "tenant".to_string(),
        origin: "origin".to_string(),
        status: WorkflowStatus::Active,
        condition: Json::Null,
        tasks,
        input_topic: format!("{}-in", id),
        persist_on_complete: false,
    }
}

fn document() -> Decoded {
    Decoded::Document(object(vec![("document", object(vec![("k", text("v"))]))]))
}

#[test]
fn workflow_runs_its_chain_and_comes_to_rest() {
    let mut m = message("wf", "");
    let w = workflow(
        "wf",
        vec![
            task("t1", MessageStatus::Recieved, "", FunctionType::Parse, Json::Null),
            task("t2", MessageStatus::Recieved, "t1", FunctionType::Fetch, object(vec![("a", number(1))])),
            task("t3", MessageStatus::Completed, "t2", FunctionType::Fetch, Json::Null),
        ],
    );
    let audit = m.audit().len();
    let version = m.version();
    m.execute_workflow(&w, &document()).ok().expect("the workflow comes to rest");
    assert_eq!(m.audit().len(), audit + 2);
    assert_eq!(m.version(), version + 2);
    assert_eq!(m.progress().prev_task, "t2");
    assert_eq!(m.progress().status, MessageStatus::Recieved);
    assert_eq!(m.progress().workflow_id, "wf");
    assert_eq!(m.progress().prev_status_code, Some(StatusCode::Success));
    assert_eq!(m.audit()[1].task(), "t1");
    assert_eq!(m.audit()[1].description(), "Task t1");
    assert_eq!(m.audit()[1].workflow(), "wf");
    assert_eq!(m.audit()[1].workflow_version(), 4);
    assert_eq!(m.audit()[2].task(), "t2");
    assert!(m.data().is_object());
    assert_eq!(m.ephemeral_data(), &object(vec![("a", number(1))]));
    assert!(m.next_task(&w).is_none());
}

#[test]
fn the_first_task_that_fires_runs_and_the_pass_begins_again() {
    // both tasks fire at the start; the first runs, and after it only the
    // second can
    let mut m = message("wf", "");
    let w = workflow(
        "wf",
        vec![
            task("b", MessageStatus::Recieved, "a", FunctionType::Fetch, number(2)),
            task("a", MessageStatus::Recieved, "", FunctionType::Fetch, number(1)),
            task("never", MessageStatus::Recieved, "", FunctionType::Validate, Json::Null),
        ],
    );
    assert_eq!(m.next_task(&w), Some(1));
    m.execute_workflow(&w, &document()).ok().expect("the workflow comes to rest");
    assert_eq!(m.audit().len(), 3);
    assert_eq!(m.audit()[1].task(), "a");
    assert_eq!(m.audit()[2].task(), "b");
    assert_eq!(m.ephemeral_data(), &number(2));
    assert_eq!(m.progress().prev_task, "b");
}

#[test]
fn a_workflow_without_a_task_that_fires_changes_nothing() {
    let mut m = message("other", "");
    let w = workflow("wf", vec![task("t1", MessageStatus::Recieved, "", FunctionType::Fetch, Json::Null)]);
    m.execute_workflow(&w, &document()).ok().expect("nothing fires");
    assert_eq!(m.audit().len(), 1);
    assert_eq!(m.version(), 1);
    assert_eq!(m.progress().workflow_id, "other");
    let mut m = message("wf", "");
    let none = workflow("wf", vec![]);
    m.execute_workflow(&none, &document()).ok().expect("there is no task");
    assert_eq!(m.audit().len(), 1);
}

#[test]
fn a_task_that_fails_ends_the_workflow() {
    let mut m = message("wf", "");
    let w = workflow(
        "wf",
        vec![
            task("t1", MessageStatus::Recieved, "", FunctionType::Fetch, Json::Null),
            task("t2", MessageStatus::Recieved, "t1", FunctionType::Validate, Json::Null),
            task("t3", MessageStatus::Failed, "t2", FunctionType::Fetch, Json::Null),
        ],
    );
    let failure = m.execute_workflow(&w, &document()).err().expect("the second task fails");
    assert_eq!(failure.workflow_id, "wf");
    assert_eq!(failure.version, 4);
    assert_eq!(failure.code, 500);
    assert_eq!(
        failure.desciption,
        "Task execution failed: Function 'Execute' failed (code 400): Function not supported: Validate"
    );
    assert_eq!(m.progress().status, MessageStatus::Failed);
    assert_eq!(m.progress().prev_status_code, Some(StatusCode::Failure));
    assert_eq!(m.progress().prev_task, "t2");
    assert_eq!(m.audit().len(), 2);
    assert_eq!(m.version(), 2);
}

#[test]
fn a_failure_freezes_the_message_unless_a_task_waits_for_it() {
    let mut m = message("wf", "");
    let mut recover = task("recover", MessageStatus::Failed, "bad", FunctionType::Fetch, text("r"));
    recover.prev_status_code = Some(StatusCode::Failure);
    let w = workflow(
        "wf",
        vec![task("bad", MessageStatus::Recieved, "", FunctionType::Publish, Json::Null), recover],
    );
    assert!(m.execute_workflow(&w, &document()).is_err());
    assert_eq!(m.progress().status, MessageStatus::Failed);
    // run again: the task that waits for the failure fires
    m.execute_workflow(&w, &document()).ok().expect("the recovery runs");
    assert_eq!(m.progress().prev_task, "recover");
    assert_eq!(m.progress().status, MessageStatus::Failed);
    assert_eq!(m.progress().prev_status_code, Some(StatusCode::Success));
    assert_eq!(m.ephemeral_data(), &text("r"));
}

#[test]
fn a_runaway_workflow_is_stopped_by_the_audit_trail() {
    let mut m = message("wf", "again");
    let w = workflow("wf", vec![task("again", MessageStatus::Recieved, "again", FunctionType::Fetch, Json::Null)]);
    let failure = m.execute_workflow(&w, &document()).err().expect("the workflow never rests");
    assert_eq!(failure.workflow_id, "wf");
    assert_eq!(failure.code, 500);
    assert_eq!(failure.desciption, "Audit overflow: the audit trail holds more than 100 entries");
    // one entry was there; 100 tasks ran
    assert_eq!(m.audit().len(), 101);
    assert_eq!(m.version(), 101);
    // and nothing runs on a trail that is already too long
    assert!(m.execute_workflow(&w, &document()).is_err());
    assert_eq!(m.audit().len(), 101);
}

#[test]
fn execute_task_runs_each_kind_of_function() {
    let mut m = message("wf", "");
    let parse = task("p", MessageStatus::Recieved, "", FunctionType::Parse, Json::Null);
    let left: TaskResult = m.execute_task("wf".to_string(), 1, &parse, &document()).unwrap();
    assert_eq!(left.status, MessageStatus::Processing);
    assert_eq!(left.status_code, Some(StatusCode::Success));
    assert_eq!(m.audit()[1].description(), "Task p");

    let fetch = task("f", MessageStatus::Recieved, "", FunctionType::Fetch, object(vec![("rate", number(3))]));
    m.execute_task("wf".to_string(), 1, &fetch, &document()).unwrap();
    let rules = Json::Array(vec![
        object(vec![("field", text("data.rate")), ("logic", var("rate"))]),
        object(vec![
            ("field", text("data.note")),
            ("logic", text("n")),
            ("description", text("a note")),
            ("more", number(1)),
        ]),
        Json::Array(vec![text("data.third"), number(3), Json::Null]),
    ]);
    let enrich = task("e", MessageStatus::Recieved, "", FunctionType::Enrich, rules);
    m.execute_task("wf".to_string(), 1, &enrich, &document()).unwrap();
    assert_eq!(m.data().get(&"rate".to_string()), Some(&number(3)));
    assert_eq!(m.data().get(&"note".to_string()), Some(&text("n")));
    assert_eq!(m.data().get(&"third".to_string()), Some(&number(3)));
    assert_eq!(m.audit().len(), 4);
    assert_eq!(m.audit()[3].changes()[1].reason(), "a note");
    assert_eq!(m.audit()[3].changes()[0].reason(), "Enriched field data.rate");

    for (function, name) in [(FunctionType::Validate, "Validate"), (FunctionType::Publish, "Publish")] {
        let t = task("x", MessageStatus::Recieved, "", function, Json::Null);
        let failure = m.execute_task("wf".to_string(), 1, &t, &document()).unwrap_err();
        assert_eq!(failure.function, "Execute");
        assert_eq!(failure.code, 400);
        assert_eq!(failure.message, format!("Function not supported: {}", name));
    }
    assert_eq!(m.audit().len(), 4);
}

#[test]
fn an_enrich_task_needs_a_list_of_rules() {
    let mut m = message("wf", "");
    for input in [
        Json::Null,
        object(vec![("field", text("data.a")), ("logic", number(1))]),
        Json::Array(vec![object(vec![("field", text("data.a"))])]),
        Json::Array(vec![object(vec![("field", number(1)), ("logic", number(1))])]),
        Json::Array(vec![object(vec![
            ("field", text("data.a")),
            ("logic", number(1)),
            ("description", number(1)),
        ])]),
        Json::Array(vec![Json::Array(vec![text("data.a"), number(1)])]),
    ] {
        let t = task("e", MessageStatus::Recieved, "", FunctionType::Enrich, input);
        let failure = m.execute_task("wf".to_string(), 1, &t, &document()).unwrap_err();
        assert_eq!(failure.function, "Enrich");
        assert_eq!(failure.code, 400);
        assert_eq!(failure.message, "Invalid enrichment rules");
    }
    assert_eq!(m.audit().len(), 1);
    assert!(m.data().is_null());
    let read = EnrichmentRules::read_list(&Json::Array(vec![object(vec![
        ("field", text("data.a")),
        ("logic", Json::Null),
        ("description", Json::Null),
    ])]))
    .expect("the rule is read");
    assert_eq!(read.len(), 1);
    assert_eq!(read[0].field, "data.a");
    assert_eq!(read[0].logic, Json::Null);
    assert_eq!(read[0].description, None);
}

#[test]
fn task_match_looks_at_progress_and_metadata_alone() {
    let mut m = message("wf", "t0");
    let yes = |m: &Message| {
        m.task_match(MessageStatus::Recieved, "wf", "t0", Some(StatusCode::Success), &Json::Null)
    };
    assert!(yes(&m));
    assert!(!m.task_match(MessageStatus::Processing, "wf", "t0", Some(StatusCode::Success), &Json::Null));
    assert!(!m.task_match(MessageStatus::Recieved, "other", "t0", Some(StatusCode::Success), &Json::Null));
    assert!(!m.task_match(MessageStatus::Recieved, "wf", "t1", Some(StatusCode::Success), &Json::Null));
    assert!(!m.task_match(MessageStatus::Recieved, "wf", "t0", Some(StatusCode::Failure), &Json::Null));
    assert!(!m.task_match(MessageStatus::Recieved, "wf", "t0", None, &Json::Null));
    // the same question has the same answer, whatever else the message holds
    m.update("data.a", number(1)).unwrap();
    m.fetch(number(5), None, "wf".to_string(), 1, "t0".to_string()).unwrap();
    assert!(yes(&m));
    let condition = op("==", vec![var("kind"), text("instant")]);
    assert!(!m.task_match(MessageStatus::Recieved, "wf", "t0", Some(StatusCode::Success), &condition));
    m.set_metadata(object(vec![("kind", text("instant"))]));
    assert!(m.task_match(MessageStatus::Recieved, "wf", "t0", Some(StatusCode::Success), &condition));
    assert!(m.task_match(MessageStatus::Recieved, "wf", "t0", Some(StatusCode::Success), &condition));
    // a condition that is no boolean, or fails, does not hold
    assert!(!m.task_match(MessageStatus::Recieved, "wf", "t0", Some(StatusCode::Success), &var("kind")));
    assert!(!m.task_match(MessageStatus::Recieved, "wf", "t0", Some(StatusCode::Success), &op("nope", vec![])));
    assert!(!m.task_match(MessageStatus::Recieved, "wf", "t0", Some(StatusCode::Success), &Json::Bool(false)));
}

#[test]
fn workflow_match_wants_tenant_origin_and_condition() {
    let mut m = message("wf", "");
    assert!(m.workflow_match("tenant", "origin", &Json::Null));
    assert!(!m.workflow_match("other", "origin", &Json::Null));
    assert!(!m.workflow_match("tenant", "other", &Json::Null));
    let condition = op(">", vec![var("amount"), number(100)]);
    assert!(!m.workflow_match("tenant", "origin", &condition));
    m.set_metadata(object(vec![("amount", number(250))]));
    assert!(m.workflow_match("tenant", "origin", &condition));
    m.set_metadata(object(vec![("amount", number(50))]));
    assert!(!m.workflow_match("tenant", "origin", &condition));
}

#[test]
fn the_first_workflow_that_matches_wins() {
    let mut m = message("second", "");
    let mut elsewhere = workflow("first", vec![]);
    elsewhere.tenant = "other".to_string();
    let second = workflow(
        "second",
        vec![task("t", MessageStatus::Recieved, "", FunctionType::Fetch, number(2))],
    );
    let third = workflow(
        "second",
        vec![task("t", MessageStatus::Recieved, "", FunctionType::Fetch, number(3))],
    );
    let workflows = vec![elsewhere, second, third];
    assert_eq!(matching_workflow(&m, &workflows), Some(1));
    process_message(&mut m, &workflows, &document()).expect("the workflow runs");
    assert_eq!(m.ephemeral_data(), &number(2));
    assert_eq!(m.audit().len(), 2);
}

#[test]
fn a_message_that_no_workflow_takes_passes_through() {
    let mut m = message("wf", "");
    let mut w = workflow("wf", vec![task("t", MessageStatus::Recieved, "", FunctionType::Fetch, Json::Null)]);
    w.origin = "elsewhere".to_string();
    let workflows = vec![w];
    assert_eq!(matching_workflow(&m, &workflows), None);
    process_message(&mut m, &workflows, &document()).expect("the message passes through");
    assert_eq!(m.audit().len(), 1);
    assert_eq!(m.version(), 1);
}

#[test]
fn a_workflow_that_fails_fails_the_record() {
    let mut m = message("wf", "");
    let workflows =
        vec![workflow("wf", vec![task("t", MessageStatus::Recieved, "", FunctionType::Publish, Json::Null)])];
    let failure = process_message(&mut m, &workflows, &document()).unwrap_err();
    assert_eq!(
        failure,
        ProcessorError::ProcessingError(
            "Workflow execution error: Workflow error - ID: wf, Version: 4, Code: 500, Message: \
Task execution failed: Function 'Execute' failed (code 400): Function not supported: Publish"
                .to_string()
        )
    );
    assert_eq!(
        failure.to_string(),
        "Processing error: Workflow execution error: Workflow error - ID: wf, Version: 4, Code: 500, \
Message: Task execution failed: Function 'Execute' failed (code 400): Function not supported: Publish"
    );
}

#[test]
fn a_message_from_parts_runs_like_any_other() {
    let payload = Payload::from_parts(
        core_data::models::message::StorageType::Inline,
        Some(vec![1, 2, 3]),
        None,
        PayloadFormat::Json,
        PayloadSchema::ISO20022,
        Encoding::Ascii,
        3,
    );
    let progress = Progress {
        status: MessageStatus::Processing,
        workflow_id: "wf".to_string(),
        prev_task: "t0".to_string(),
        prev_status_code: Some(StatusCode::Success),
        timestamp: Timestamp { unix_nanos: 1_700_000_000_000_000_000, offset_seconds: 3600 },
    };
    let mut m = Message::from_parts(
        42,
        Some("41".to_string()),
        payload,
        9,
        "tenant".to_string(),
        "origin".to_string(),
        object(vec![("a", number(1))]),
        Json::Null,
        progress,
        vec![],
    );
    assert_eq!(m.id(), 42);
    assert_eq!(m.parent_id(), &Some("41".to_string()));
    assert_eq!(m.version(), 9);
    assert_eq!(m.payload().content(), Some(&[1u8, 2, 3][..]));
    assert_eq!(m.payload().encoding().name(), "ASCII");
    assert!(!m.in_transaction());
    assert!(m.ephemeral_data().is_null());
    let w = workflow("wf", vec![task("t1", MessageStatus::Processing, "t0", FunctionType::Fetch, number(1))]);
    m.execute_workflow(&w, &document()).ok().expect("the workflow comes to rest");
    assert_eq!(m.audit().len(), 1);
    assert_eq!(m.version(), 10);
    assert_eq!(m.progress().timestamp.offset_seconds, 0);
}
