//! Editor tooling: the developer console and the profiler overlay state.

pub mod console;
pub mod profiler_ui;
