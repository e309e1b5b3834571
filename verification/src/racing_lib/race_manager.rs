//! Per-frame racing systems.

use vstd::prelude::*;
use crate::ecs::system::System;
use crate::ecs::world::World;

verus! {

/// Checkpoint system for tracking checkpoint passage.
#[derive(Debug, Clone, Copy, PartialEq, Eq, Structural)]
pub struct CheckpointSystem;

impl CheckpointSystem {
    pub fn new() -> (s: Self)
        ensures
            s == CheckpointSystem,
    {
        Self
    }
}

impl System for CheckpointSystem {
    /// A run leaves the world as it is.
    open spec fn runs(&self, before: World, after: World) -> bool {
        after == before
    }

    /// Initializing leaves the world as it is.
    open spec fn initializes(&self, before: World, after: World) -> bool {
        after == before
    }

    /// Cleaning up leaves the world as it is.
    open spec fn cleans_up(&self, before: World, after: World) -> bool {
        after == before
    }

    fn initialize(&mut self, world: &mut World) {
    }

    fn cleanup(&mut self, world: &mut World) {
    }

    fn run(&mut self, world: &mut World) {
    }
}

impl Default for CheckpointSystem {
    fn default() -> (s: Self)
        ensures
            s == CheckpointSystem,
    {
        Self::new()
    }
}

/// Lap timer system.
#[derive(Debug, Clone, Copy, PartialEq, Eq, Structural)]
pub struct LapTimerSystem;

impl LapTimerSystem {
    pub fn new() -> (s: Self)
        ensures
            s == LapTimerSystem,
    {
        Self
    }
}

impl System for LapTimerSystem {
    /// A run leaves the world as it is.
    open spec fn runs(&self, before: World, after: World) -> bool {
        after == before
    }

    /// Initializing leaves the world as it is.
    open spec fn initializes(&self, before: World, after: World) -> bool {
        after == before
    }

    /// Cleaning up leaves the world as it is.
    open spec fn cleans_up(&self, before: World, after: World) -> bool {
        after == before
    }

    fn initialize(&mut self, world: &mut World) {
    }

    fn cleanup(&mut self, world: &mut World) {
    }

    fn run(&mut self, world: &mut World) {
    }
}

impl Default for LapTimerSystem {
    fn default() -> (s: Self)
        ensures
            s == LapTimerSystem,
    {
        Self::new()
    }
}

} // verus!
