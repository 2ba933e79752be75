use core_data::json::Json;
use core_data::models::message::{AuditLog, ChangeLog, Encoding};
use core_data::models::workflow::{Workflow, WorkflowStatus};
use core_data::processor::config::{load_config, AppConfig, ConfigError, Environment};
use core_data::processor::worker::{
    advance, check_payload, consumer_settings, output_topic, producer_settings, Action, Event,
    MessageMetadata, Processor, ProcessorError, Stage, PRODUCE_TIMEOUT_SECONDS,
};
use core_data::processor_api::config as api;
use core_data::processor_api::initiate::{initiate, record_key, respond, InitiationResponse};
use core_data::stamp::{fresh_id, now, settle_id, Timestamp};

fn found(s: &str) -> Result<String, String> {
    Ok(s.to_string())
}

fn missing() -> Result<String, String> {
    Err("environment variable not found".to_string())
}

fn environment() -> Environment {
    Environment {
        kafkabootstrapservers: found("broker:9092"),
        kafkagroupid: found("workers"),
        maxconcurrency: found("8"),
        mongodburi: found("mongodb://db"),
        mongodbdatabase: found("workflows"),
        workflowids: found("wf1,wf2"),
    }
}

fn config(max: usize) -> AppConfig {
    AppConfig {
        kafkabootstrapservers: "broker:9092".to_string(),
        kafkagroupid: "workers".to_string(),
        maxconcurrency: max,
        mongodburi: String::new(),
        mongodbdatabase: String::new(),
        workflowids: vec![],
    }
}

fn workflow(id: &str, topic: &str) -> Workflow {
    Workflow {
        id: id.to_string(),
        name: id.to_string(),
        description: String::new(),
        version: 1,
        tenant: "t".to_string(),
        origin: "o".to_string(),
        status: WorkflowStatus::Active,
        condition: Json::Null,
        tasks: vec![],
        input_topic: topic.to_string(),
        persist_on_complete: true,
    }
}

#[test]
fn worker_configuration_from_the_environment() {
    let config = load_config(environment()).expect("every variable is there");
    assert_eq!(config.kafkabootstrapservers, "broker:9092");
    assert_eq!(config.kafkagroupid, "workers");
    assert_eq!(config.maxconcurrency, 8);
    assert_eq!(config.mongodburi, "mongodb://db");
    assert_eq!(config.mongodbdatabase, "workflows");
    assert_eq!(config.workflowids, vec!["wf1", "wf2"]);
}

#[test]
fn worker_concurrency_is_one_by_default() {
    let mut env = environment();
    env.maxconcurrency = missing();
    assert_eq!(load_config(env).unwrap().maxconcurrency, 1);
}

#[test]
fn worker_configuration_says_what_is_missing_first() {
    let mut env = environment();
    env.maxconcurrency = found("many");
    assert_eq!(
        load_config(env),
        Err(ConfigError::ParseError("Invalid batch size: invalid digit found in string".to_string()))
    );
    let mut env = environment();
    env.maxconcurrency = found("");
    assert_eq!(
        load_config(env).unwrap_err().to_string(),
        "Parse error: Invalid batch size: cannot parse integer from empty string"
    );
    let mut env = environment();
    env.kafkagroupid = missing();
    env.maxconcurrency = found("many");
    env.workflowids = missing();
    let e = load_config(env).unwrap_err();
    assert_eq!(e, ConfigError::EnvVarError("environment variable not found".to_string()));
    assert_eq!(e.to_string(), "Environment variable error: environment variable not found");
    for which in 0..5 {
        let mut env = environment();
        match which {
            0 => env.kafkabootstrapservers = missing(),
            1 => env.kafkagroupid = missing(),
            2 => env.mongodburi = missing(),
            3 => env.mongodbdatabase = missing(),
            _ => env.workflowids = missing(),
        }
        assert!(load_config(env).is_err());
    }
}

#[test]
fn ingress_configuration_from_the_environment() {
    let env = api::Environment {
        serverhostname: missing(),
        serverport: missing(),
        kafkabootstrapservers: found("broker:9092"),
        kafkamessagetimeoutms: found("5000"),
        kafkatopic: found("input"),
    };
    let config = api::load_config(env).expect("the broker's variables are there");
    assert_eq!(config.serverhostname, "127.0.0.1");
    assert_eq!(config.serverport, 8080);
    assert_eq!(config.kafkabootstrapservers, "broker:9092");
    assert_eq!(config.kafkamessagetimeoutms, "5000");
    assert_eq!(config.kafkatopic, "input");
    let env = api::Environment {
        serverhostname: found("0.0.0.0"),
        serverport: found("9000"),
        kafkabootstrapservers: found("b"),
        kafkamessagetimeoutms: found("1"),
        kafkatopic: found("t"),
    };
    let config = api::load_config(env).unwrap();
    assert_eq!(config.serverhostname, "0.0.0.0");
    assert_eq!(config.serverport, 9000);
}

#[test]
fn ingress_configuration_says_what_is_wrong() {
    let env = api::Environment {
        serverhostname: missing(),
        serverport: found("65536"),
        kafkabootstrapservers: missing(),
        kafkamessagetimeoutms: found("5000"),
        kafkatopic: found("input"),
    };
    let e = api::load_config(env).unwrap_err();
    assert_eq!(
        e,
        api::ConfigError::ParseError("Invalid port: number too large to fit in target type".to_string())
    );
    assert_eq!(
        e.to_string(),
        "Configuration parse error: Invalid port: number too large to fit in target type"
    );
    let env = api::Environment {
        serverhostname: missing(),
        serverport: missing(),
        kafkabootstrapservers: found("b"),
        kafkamessagetimeoutms: missing(),
        kafkatopic: missing(),
    };
    let e = api::load_config(env).unwrap_err();
    assert_eq!(
        e,
        api::ConfigError::EnvVarError(
            "Missing KAFKAMESSAGETIMEOUTMS: environment variable not found".to_string()
        )
    );
    assert_eq!(
        e.to_string(),
        "Environment variable error: Missing KAFKAMESSAGETIMEOUTMS: environment variable not found"
    );
    let env = api::Environment {
        serverhostname: missing(),
        serverport: missing(),
        kafkabootstrapservers: missing(),
        kafkamessagetimeoutms: found("1"),
        kafkatopic: found("t"),
    };
    assert_eq!(
        api::load_config(env).unwrap_err(),
        api::ConfigError::EnvVarError(
            "Missing KAFKABOOTSTRAPSERVERS: environment variable not found".to_string()
        )
    );
    let env = api::Environment {
        serverhostname: missing(),
        serverport: missing(),
        kafkabootstrapservers: found("b"),
        kafkamessagetimeoutms: found("1"),
        kafkatopic: missing(),
    };
    assert_eq!(
        api::load_config(env).unwrap_err(),
        api::ConfigError::EnvVarError("Missing KAFKATOPIC: environment variable not found".to_string())
    );
}

#[test]
fn an_empty_record_is_refused() {
    assert_eq!(
        check_payload(&[]),
        Err(ProcessorError::ProcessingError("Cannot process empty message".to_string()))
    );
    assert_eq!(check_payload(b"{}"), Ok(()));
    assert_eq!(
        ProcessorError::KafkaError("down".to_string()).to_string(),
        "Kafka error: down"
    );
    assert_eq!(
        ProcessorError::ConfigError("bad".to_string()).to_string(),
        "Configuration error: bad"
    );
    assert_eq!(
        ProcessorError::SerializationError("eof".to_string()).to_string(),
        "Serialization error: eof"
    );
}

#[test]
fn a_record_is_produced_then_committed() {
    let (stage, action) = advance(Stage::Consumed, Event::Processed { ok: true });
    assert_eq!((stage, action), (Stage::Producing, Action::Produce));
    let (stage, action) = advance(stage, Event::ProduceAcknowledged { ok: true });
    assert_eq!((stage, action), (Stage::Committing, Action::StoreOffset));
    let (stage, action) = advance(stage, Event::OffsetStored { ok: true });
    assert_eq!((stage, action), (Stage::Done, Action::Release));
}

#[test]
fn a_produce_that_fails_commits_nothing() {
    let (stage, _) = advance(Stage::Consumed, Event::Processed { ok: true });
    let (stage, action) = advance(stage, Event::ProduceAcknowledged { ok: false });
    assert_eq!((stage, action), (Stage::Aborted, Action::Release));
    // whatever comes after, the offset is not stored
    for event in [
        Event::Processed { ok: true },
        Event::ProduceAcknowledged { ok: true },
        Event::OffsetStored { ok: true },
    ] {
        assert_eq!(advance(stage, event), (Stage::Aborted, Action::Ignore));
    }
}

#[test]
fn every_failure_aborts_and_releases() {
    assert_eq!(
        advance(Stage::Consumed, Event::Processed { ok: false }),
        (Stage::Aborted, Action::Release)
    );
    assert_eq!(
        advance(Stage::Committing, Event::OffsetStored { ok: false }),
        (Stage::Aborted, Action::Release)
    );
    // an event out of turn is ignored
    assert_eq!(
        advance(Stage::Consumed, Event::OffsetStored { ok: true }),
        (Stage::Consumed, Action::Ignore)
    );
    assert_eq!(
        advance(Stage::Consumed, Event::ProduceAcknowledged { ok: true }),
        (Stage::Consumed, Action::Ignore)
    );
    assert_eq!(
        advance(Stage::Producing, Event::OffsetStored { ok: true }),
        (Stage::Producing, Action::Ignore)
    );
    assert_eq!(
        advance(Stage::Done, Event::Processed { ok: true }),
        (Stage::Done, Action::Ignore)
    );
}

#[test]
fn no_more_records_are_in_flight_than_allowed() {
    let mut worker = Processor::new(config(2), vec![workflow("a", "in-a"), workflow("b", "in-b")]);
    assert_eq!(worker.in_flight(), 0);
    assert_eq!(worker.config().maxconcurrency, 2);
    assert_eq!(worker.workflows().len(), 2);
    assert_eq!(worker.input_topics(), vec!["in-a", "in-b"]);
    assert!(worker.acquire());
    assert!(worker.acquire());
    assert!(!worker.acquire());
    assert_eq!(worker.in_flight(), 2);
    worker.release();
    assert_eq!(worker.in_flight(), 1);
    assert!(worker.acquire());
    worker.release();
    worker.release();
    worker.release();
    assert_eq!(worker.in_flight(), 0);
    let mut none = Processor::new(config(0), vec![]);
    assert!(!none.acquire());
}

#[test]
fn broker_clients_are_set_up_for_at_least_once() {
    let settings = consumer_settings(&config(1));
    assert_eq!(
        settings,
        vec![
            ("group.id".to_string(), "workers".to_string()),
            ("bootstrap.servers".to_string(), "broker:9092".to_string()),
            ("enable.auto.commit".to_string(), "false".to_string()),
            ("auto.offset.reset".to_string(), "earliest".to_string()),
        ]
    );
    assert_eq!(
        producer_settings(&config(1)),
        vec![
            ("bootstrap.servers".to_string(), "broker:9092".to_string()),
            ("message.timeout.ms".to_string(), "5000".to_string()),
        ]
    );
    assert_eq!(output_topic(), "message_updates");
    assert_eq!(PRODUCE_TIMEOUT_SECONDS, 5);
    let record = MessageMetadata { topic: "in".to_string(), partition: 3, offset: 41, key: b"7".to_vec() };
    assert_eq!(record.clone(), record);
}

#[test]
fn the_ingress_wraps_a_body_in_a_fresh_message() {
    let message = initiate(b"<Document/>".to_vec(), "tenant1".to_string(), "api".to_string());
    assert_eq!(message.payload().content(), Some(&b"<Document/>"[..]));
    assert_eq!(message.payload().encoding(), Encoding::Utf8);
    assert_eq!(message.payload().encoding().name(), "UTF-8");
    assert_eq!(message.tenant(), "tenant1");
    assert_eq!(message.origin(), "api");
    assert_eq!(message.version(), 1);
    assert_eq!(message.audit().len(), 1);
    assert_eq!(message.audit()[0].description(), "Payment created");
    assert_eq!(message.audit()[0].workflow(), "payment_processing");
    assert_eq!(message.audit()[0].task(), "initiate");
    assert_eq!(message.progress().workflow_id, "payment_processing");
    assert_eq!(message.progress().prev_task, "initiate");
    assert_eq!(record_key(&message), message.id().to_string());
}

#[test]
fn the_ingress_answers_with_the_identifier_or_the_errors() {
    let ok = respond(1234567890123, Ok(()));
    assert_eq!(
        ok,
        InitiationResponse::Success(Json::Object(vec![(
            "message_id".to_string(),
            Json::Text("1234567890123".to_string())
        )]))
    );
    assert_eq!(ok.status(), 200);
    let failed = respond(1, Err("Kafka delivery error: timed out".to_string()));
    assert_eq!(
        failed,
        InitiationResponse::Error(vec!["Kafka error: Kafka delivery error: timed out".to_string()])
    );
    assert_eq!(failed.status(), 400);
}

#[test]
fn identifiers_and_instants() {
    assert_eq!(settle_id(Some(77)), 77);
    assert_eq!(settle_id(None), 0);
    let _ = fresh_id();
    let first = now();
    let second = now();
    assert_eq!(first.offset_seconds, 0);
    // the clock reads this century
    assert!(first.unix_nanos > 1_600_000_000_000_000_000);
    assert!(second.unix_nanos > 1_600_000_000_000_000_000);
    let early = Timestamp { unix_nanos: 5, offset_seconds: 0 };
    let late = Timestamp { unix_nanos: 9, offset_seconds: 7200 };
    assert!(late.not_before(early));
    assert!(!early.not_before(late));
    assert!(early.not_before(early));
    assert_eq!(early.latest(late), late);
    assert_eq!(late.latest(early), late);
}

#[test]
fn an_audit_entry_never_finishes_before_it_starts() {
    let start = Timestamp { unix_nanos: 100, offset_seconds: 0 };
    let behind = Timestamp { unix_nanos: 40, offset_seconds: 0 };
    let ahead = Timestamp { unix_nanos: 140, offset_seconds: 0 };
    let change = ChangeLog::new("data".to_string(), "why".to_string(), Some(Json::Null), Some(Json::Bool(true)));
    assert_eq!(change.old_value(), Some(&Json::Null));
    assert_eq!(change.new_value(), Some(&Json::Bool(true)));
    let entry = AuditLog::stamped(
        9,
        behind,
        "wf".to_string(),
        2,
        "t".to_string(),
        start,
        "d".to_string(),
        vec![change.clone()],
    );
    assert_eq!(entry.id(), 9);
    assert_eq!(entry.start_time(), &start);
    assert_eq!(entry.finish_time(), &start);
    assert_eq!(entry.changes(), &[change][..]);
    let entry = AuditLog::stamped(9, ahead, "wf".to_string(), 2, "t".to_string(), start, "d".to_string(), vec![]);
    assert_eq!(entry.finish_time(), &ahead);
    assert_eq!(entry.clone(), entry);
    assert!(AuditLog::from_parts(
        1,
        start,
        behind,
        "w".to_string(),
        1,
        "t".to_string(),
        "d".to_string(),
        "h".to_string(),
        "s".to_string(),
        "i".to_string(),
        vec![]
    )
    .is_none());
    let kept = AuditLog::from_parts(
        1,
        start,
        ahead,
        "w".to_string(),
        1,
        "t".to_string(),
        "d".to_string(),
        "h".to_string(),
        "s".to_string(),
        "i".to_string(),
        vec![],
    )
    .expect("the entry finishes after it starts");
    assert_eq!(kept.hash(), "h");
    assert_eq!(kept.service(), "s");
    assert_eq!(kept.instance(), "i");
    let fresh = AuditLog::new("w".to_string(), 1, "t".to_string(), now(), "d".to_string(), vec![]);
    assert!(fresh.finish_time().not_before(*fresh.start_time()));
}
