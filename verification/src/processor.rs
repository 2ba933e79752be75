pub mod config;
pub mod worker;

pub use self::worker::{Processor, ProcessorError};
