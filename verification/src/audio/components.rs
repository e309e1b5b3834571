//! Audio listener component.

use vstd::prelude::*;

verus! {

/// ECS component for the audio listener.
#[derive(Clone, Copy, Debug, PartialEq, Eq, Structural)]
pub struct AudioListener {
    pub active: bool,
}

impl Default for AudioListener {
    fn default() -> (l: Self)
        ensures
            l.active,
    {
        Self { active: true }
    }
}

} // verus!
