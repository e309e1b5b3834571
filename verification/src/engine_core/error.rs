//! Central error type of the engine.

use vstd::prelude::*;

verus! {

/// `std::io::Error`, carried inside `EngineError::IoError`.
#[verifier::external_type_specification]
#[verifier::external_body]
pub struct ExIoError(std::io::Error);

/// `winit::error::OsError`, carried inside `EngineError::PlatformError`.
#[verifier::external_type_specification]
#[verifier::external_body]
pub struct ExOsError(winit::error::OsError);

/// `serde_json::Error`, carried inside `EngineError::SerdeError`.
#[verifier::external_type_specification]
#[verifier::external_body]
pub struct ExSerdeJsonError(serde_json::Error);

/// Engine error types.
#[derive(Debug)]
pub enum EngineError {
    /// Initialization failed.
    InitError(String),
    /// Asset loading error.
    AssetError(String),
    /// Invalid operation error.
    InvalidOperation(String),
    /// Platform error from the windowing system.
    PlatformError(winit::error::OsError),
    /// IO error.
    IoError(std::io::Error),
    /// Serialization error.
    SerdeError(serde_json::Error),
}

/// Result type alias for engine operations.
pub type EngineResult<T> = Result<T, EngineError>;

} // verus!
