//! Utilities: bounded queues and log-level selection.

pub mod bounded;
pub mod logging;
