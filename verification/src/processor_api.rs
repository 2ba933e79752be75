pub mod config;
pub mod initiate;

pub use self::initiate::{initiate, InitiationResponse};
