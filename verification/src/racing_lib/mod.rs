//! Racing gameplay: race state, lap timing, camera modes and per-frame systems.

pub mod components;
pub mod race_manager;

pub use components::{CameraMode, LapTimer, RaceState};
pub use race_manager::{CheckpointSystem, LapTimerSystem};
