//! Engine configuration.

use vstd::prelude::*;

verus! {

/// Window configuration settings.
#[derive(Debug, Clone)]
pub struct WindowConfig {
    pub title: String,
    pub width: u32,
    pub height: u32,
    pub fullscreen: bool,
    pub resizable: bool,
}

impl Default for WindowConfig {
    fn default() -> (c: Self)
        ensures
            c.title@ == "RustyRacer Engine"@,
            c.width == 1280,
            c.height == 720,
            !c.fullscreen,
            c.resizable,
    {
        Self {
            title: "RustyRacer Engine".to_owned(),
            width: 1280,
            height: 720,
            fullscreen: false,
            resizable: true,
        }
    }
}

} // verus!
