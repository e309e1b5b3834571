//! Platform input: keyboard state tracking.

pub mod input;

pub use input::KeyboardState;
