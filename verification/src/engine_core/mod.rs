//! Core engine types: errors and configuration.

pub mod error;
pub mod config;

pub use error::{EngineError, EngineResult};
pub use config::WindowConfig;
