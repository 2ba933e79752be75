pub mod base64;
pub mod json;
pub mod logic;
pub mod models;
pub mod processor;
pub mod processor_api;
pub mod stamp;
pub mod text;
