//! The ingress: wraps a body in a fresh message and answers the caller.
use crate::json::{entries_map, Json, JsonValue};
use crate::models::message::base::{creation_description, Message};
use crate::models::message::progress::{MessageStatus, StatusCode};
use crate::models::payload::{
    Encoding, Payload, PayloadFormat, PayloadSchema, PayloadView, StorageType,
};
use crate::text::{decimal, decimal_text, join};
use vstd::prelude::*;

verus! {

/// What the ingress answers.
#[derive(Debug, PartialEq)]
pub enum InitiationResponse {
    /// The message was produced: the document to answer with.
    Success(Json),
    /// The message was not produced: the errors.
    Error(Vec<String>),
}

/// The workflow under which the ingress records the creation of a message.
pub open spec fn initiation_workflow() -> Seq<char> {
    "payment_processing"@
}

/// The task under which the ingress records the creation of a message.
pub open spec fn initiation_task() -> Seq<char> {
    "initiate"@
}

/// Wraps `body` in a fresh message of `tenant` and `origin`: an inline XML
/// payload of the ISO 20022 schema, in UTF-8, received now.
pub fn initiate(body: Vec<u8>, tenant: String, origin: String) -> (r: Message)
    ensures
        r@.payload == (PayloadView {
            storage: StorageType::Inline,
            content: Some(body@),
            url: None,
            format: PayloadFormat::Xml,
            schema: PayloadSchema::ISO20022,
            encoding: Encoding::Utf8,
            size: 0,
        }),
        r@.tenant == tenant@,
        r@.origin == origin@,
        r@.version == 1,
        r@.data == JsonValue::Null,
        r@.metadata == JsonValue::Null,
        r@.parent_id is None,
        r@.progress.status == MessageStatus::Recieved,
        r@.progress.workflow_id == initiation_workflow(),
        r@.progress.prev_task == initiation_task(),
        r@.progress.prev_status_code == Some(StatusCode::Success),
        r@.audit.len() == 1,
        r@.audit[0].workflow == initiation_workflow(),
        r@.audit[0].workflow_version == 1,
        r@.audit[0].task == initiation_task(),
        r@.audit[0].description == creation_description("Payment"@),
{
    let payload = Payload::new_inline(
        Some(body),
        PayloadFormat::Xml,
        PayloadSchema::ISO20022,
        Encoding::Utf8,
    );
    Message::new(
        payload,
        tenant,
        origin,
        String::from_str("payment_processing"),
        1,
        String::from_str("initiate"),
        Some(String::from_str("Payment")),
    )
}

/// The key of the record that carries a message: its identifier in decimal.
pub fn record_key(message: &Message) -> (r: String)
    ensures
        r@ == decimal_text(message@.id as nat),
{
    decimal(message.id())
}

/// The document that answers a message that was produced.
pub open spec fn success_body(id: u64) -> JsonValue {
    JsonValue::Object(
        entries_map(seq![("message_id"@, JsonValue::Text(decimal_text(id as nat)))]),
    )
}

/// The answer to a caller, given the identifier of the message and what came
/// of producing it.
pub fn respond(message_id: u64, published: Result<(), String>) -> (r: InitiationResponse)
    ensures
        match published {
            Ok(_) => r matches InitiationResponse::Success(body) && body@ == success_body(
                message_id,
            ),
            Err(e) => r matches InitiationResponse::Error(errors) && errors@.len() == 1
                && errors@[0]@ == "Kafka error: "@ + e@,
        },
{
    match published {
        Ok(()) => {
            let mut entries: Vec<(String, Json)> = Vec::new();
            entries.push((String::from_str("message_id"), Json::Text(decimal(message_id))));
            let body = Json::Object(entries);
            assert(crate::json::entries_view(entries@) =~= seq![
                ("message_id"@, JsonValue::Text(decimal_text(message_id as nat))),
            ]);
            InitiationResponse::Success(body)
        },
        Err(e) => {
            let mut errors: Vec<String> = Vec::new();
            errors.push(join("Kafka error: ", e.as_str()));
            InitiationResponse::Error(errors)
        },
    }
}

impl InitiationResponse {
    /// The HTTP status of the answer: 200 for a message that was produced, 400
    /// otherwise.
    pub fn status(&self) -> (r: u16)
        ensures
            r == (if self is Success {
                200u16
            } else {
                400u16
            }),
    {
        match self {
            InitiationResponse::Success(_) => 200,
            InitiationResponse::Error(_) => 400,
        }
    }
}

} // verus!
