pub use crate::models::message::errors::FunctionResponseError;
