//! Systems: units of logic that the scheduler runs against the world.

use vstd::prelude::*;
use crate::ecs::world::World;

verus! {

/// Trait for systems that can be executed by the scheduler.
pub trait System: Send + Sync {
    /// Whether one run of this system may take the world from `before` to
    /// `after`: what the system does to the world.  A system that does not
    /// say may leave any world.
    open spec fn runs(&self, before: World, after: World) -> bool {
        true
    }

    /// Runs the system logic.
    fn run(&mut self, world: &mut World)
        ensures
            old(self).runs(*old(world), *final(world)),
    ;

    /// Whether initializing this system may take the world from `before` to
    /// `after`.  A system that does not say may leave any world.
    open spec fn initializes(&self, before: World, after: World) -> bool {
        true
    }

    /// Whether cleaning up this system may take the world from `before` to
    /// `after`.  A system that does not say may leave any world.
    open spec fn cleans_up(&self, before: World, after: World) -> bool {
        true
    }

    /// Initialization hook, run once before the first run.
    fn initialize(&mut self, world: &mut World)
        ensures
            old(self).initializes(*old(world), *final(world)),
    ;

    /// Cleanup hook, run once after the last run.
    fn cleanup(&mut self, world: &mut World)
        ensures
            old(self).cleans_up(*old(world), *final(world)),
    ;
}

/// A system wrapper for function closures.
pub struct FunctionSystem<F: Fn(&mut World) + Send + Sync + 'static> {
    func: F,
}

impl<F: Fn(&mut World) + Send + Sync + 'static> FunctionSystem<F> {
    #[verifier::type_invariant]
    spec fn callable(self) -> bool {
        forall|w: &mut World| #[trigger] call_requires(self.func, (w,))
    }

    /// The wrapped function.
    pub closed spec fn function(self) -> F {
        self.func
    }

    /// Creates a new function system.
    pub fn new(func: F) -> (s: Self)
        requires
            forall|w: &mut World| #[trigger] call_requires(func, (w,)),
        ensures
            s.function() == func,
    {
        Self { func }
    }
}

impl<F: Fn(&mut World) + Send + Sync + 'static> System for FunctionSystem<F> {
    /// Initializing does not call the function and leaves the world as it is.
    open spec fn initializes(&self, before: World, after: World) -> bool {
        after == before
    }

    /// Cleaning up does not call the function and leaves the world as it is.
    open spec fn cleans_up(&self, before: World, after: World) -> bool {
        after == before
    }

    fn initialize(&mut self, world: &mut World) {
    }

    fn cleanup(&mut self, world: &mut World) {
    }

    fn run(&mut self, world: &mut World) {
        proof { use_type_invariant(&*self); }
        (self.func)(world);
    }
}

/// Helper function to convert a closure into a system.
pub fn system<F: Fn(&mut World) + Send + Sync + 'static>(func: F) -> (s: FunctionSystem<F>)
    requires
        forall|w: &mut World| #[trigger] call_requires(func, (w,)),
    ensures
        s.function() == func,
{
    FunctionSystem::new(func)
}

} // verus!
