//! Gameplay components for racing events.

use vstd::prelude::*;
use std::time::Duration;

verus! {

/// Race state machine.
#[derive(Debug, Clone, PartialEq, Eq, Structural)]
pub enum RaceState {
    Starting,
    Racing,
    Finished,
    Disqualified,
}

/// `Duration::clone`: `Duration` is `Copy`, and its clone is the same value.
pub assume_specification[ <Duration as Clone>::clone ](d: &Duration) -> (r: Duration)
    ensures
        r == *d,
;

/// Calls `Duration::ZERO`.
#[verifier::external_body]
fn zero_duration() -> Duration {
    Duration::ZERO
}

/// Lap timer component tracking lap metrics.
#[derive(Debug, Clone)]
pub struct LapTimer {
    pub current_lap_time: Duration,
    pub best_lap_time: Option<Duration>,
    pub last_lap_time: Option<Duration>,
    pub lap_history: Vec<Duration>,
    pub sector_times: [Option<Duration>; 3],
    pub best_sector_times: [Option<Duration>; 3],
    pub checkpoints_passed: u32,
}

impl Default for LapTimer {
    fn default() -> (t: Self)
        ensures
            t.best_lap_time is None,
            t.last_lap_time is None,
            t.lap_history@.len() == 0,
            forall|i: int| 0 <= i < 3 ==> t.sector_times@[i] is None,
            forall|i: int| 0 <= i < 3 ==> t.best_sector_times@[i] is None,
            t.checkpoints_passed == 0,
    {
        Self {
            current_lap_time: zero_duration(),
            best_lap_time: None,
            last_lap_time: None,
            lap_history: Vec::new(),
            sector_times: [None, None, None],
            best_sector_times: [None, None, None],
            checkpoints_passed: 0,
        }
    }
}

/// Camera mode enumeration.
#[derive(Debug, Clone, Copy, PartialEq, Eq, Structural)]
pub enum CameraMode {
    Cockpit,
    Chase,
    Orbit,
    RearView,
}

/// The mode that follows `mode` in the cycle Cockpit, Chase, Orbit, RearView.
pub open spec fn next_mode(mode: CameraMode) -> CameraMode {
    match mode {
        CameraMode::Cockpit => CameraMode::Chase,
        CameraMode::Chase => CameraMode::Orbit,
        CameraMode::Orbit => CameraMode::RearView,
        CameraMode::RearView => CameraMode::Cockpit,
    }
}

impl CameraMode {
    /// The next camera mode in the cycle.
    pub fn cycled(self) -> (r: CameraMode)
        ensures
            r == next_mode(self),
    {
        match self {
            CameraMode::Cockpit => CameraMode::Chase,
            CameraMode::Chase => CameraMode::Orbit,
            CameraMode::Orbit => CameraMode::RearView,
            CameraMode::RearView => CameraMode::Cockpit,
        }
    }
}

/// Cycling the camera mode four times gives back the mode one started from,
/// and fewer cycles never do.
pub proof fn lemma_camera_cycle_period(mode: CameraMode)
    ensures
        next_mode(next_mode(next_mode(next_mode(mode)))) == mode,
        next_mode(mode) != mode,
        next_mode(next_mode(mode)) != mode,
        next_mode(next_mode(next_mode(mode))) != mode,
{
}

} // verus!
