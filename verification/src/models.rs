pub mod errors;
pub mod message;
pub mod payload;
pub mod task;
pub mod workflow;
