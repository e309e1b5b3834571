//! State of the performance profiler overlay.

use vstd::prelude::*;

verus! {

/// Performance profiler UI overlay.
#[derive(Debug, Clone, Copy, PartialEq, Eq, Structural)]
pub struct ProfilerUi {
    pub enabled: bool,
    pub open_windows: bool,
}

impl Default for ProfilerUi {
    fn default() -> (p: Self)
        ensures
            !p.enabled,
            !p.open_windows,
    {
        Self { enabled: false, open_windows: false }
    }
}

impl ProfilerUi {
    /// Toggles the profiler visibility.
    pub fn toggle(&mut self)
        ensures
            final(self).enabled == !old(self).enabled,
            final(self).open_windows == old(self).open_windows,
    {
        self.enabled = !self.enabled;
    }
}

} // verus!
