pub mod auditlog;
pub mod base;
pub mod enrich;
pub mod errors;
pub mod execute;
pub mod fetch;
pub mod matching;
pub mod parse;
pub mod progress;

pub use self::auditlog::{AuditLog, ChangeLog};
pub use self::base::Message;
pub use self::enrich::{EnrichmentRules, EvaluatedRule};
pub use self::parse::Decoded;
pub use self::progress::{MessageStatus, Progress, StatusCode};
pub use crate::models::payload::{Encoding, Payload, PayloadFormat, PayloadSchema, StorageType};
