//! Asset pipeline: compression.

pub mod compression;
pub mod streaming;
