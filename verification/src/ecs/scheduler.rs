//! Scheduler for system execution and stage management.

use vstd::prelude::*;
use crate::ecs::system::System;
use crate::ecs::world::World;

verus! {

/// Execution stages for the game loop.
#[derive(Debug, Clone, Copy, PartialEq, Eq, Structural)]
pub enum ExecutionStage {
    PreUpdate,
    Input,
    Update,
    Physics,
    PostUpdate,
    Render,
}

/// One boxed system.
struct SystemSlot {
    system: Box<dyn System>,
}

impl SystemSlot {
    fn new<S: System + 'static>(system: S) -> SystemSlot {
        let system: Box<dyn System> = Box::new(system);
        SystemSlot { system }
    }
}

/// Scheduler for managing and executing systems, in the order they were added.
pub struct Scheduler {
    systems: Vec<SystemSlot>,
}

/// `worlds` is a run of `systems` one after another: system `i` takes the
/// world from `worlds[i]` to `worlds[i + 1]`.
pub open spec fn runs_in_order(systems: Seq<Box<dyn System>>, worlds: Seq<World>) -> bool {
    &&& worlds.len() == systems.len() + 1
    &&& forall|i: int| 0 <= i < systems.len() ==> #[trigger] systems[i].runs(worlds[i], worlds[i + 1])
}

/// `worlds` is an initialization of `systems` one after another.
pub open spec fn initializes_in_order(systems: Seq<Box<dyn System>>, worlds: Seq<World>) -> bool {
    &&& worlds.len() == systems.len() + 1
    &&& forall|i: int| 0 <= i < systems.len() ==> #[trigger] systems[i].initializes(worlds[i], worlds[i + 1])
}

/// `worlds` is a cleanup of `systems` one after another.
pub open spec fn cleans_up_in_order(systems: Seq<Box<dyn System>>, worlds: Seq<World>) -> bool {
    &&& worlds.len() == systems.len() + 1
    &&& forall|i: int| 0 <= i < systems.len() ==> #[trigger] systems[i].cleans_up(worlds[i], worlds[i + 1])
}

/// A scheduler without systems leaves the world as it is: a run of no
/// systems starts and ends on the same world.
pub proof fn lemma_no_systems_keep_world(worlds: Seq<World>)
    requires
        runs_in_order(Seq::<Box<dyn System>>::empty(), worlds),
    ensures
        worlds.last() == worlds[0],
{
}

impl Scheduler {
    /// Number of systems added so far.
    pub closed spec fn num_systems(&self) -> nat {
        self.systems@.len()
    }

    /// The systems, in the order they were added.
    pub closed spec fn systems(&self) -> Seq<Box<dyn System>> {
        self.systems@.map_values(|s: SystemSlot| s.system)
    }

    /// Creates a new empty scheduler.
    pub fn new() -> (s: Self)
        ensures
            s.num_systems() == 0,
            s.systems().len() == 0,
    {
        Self { systems: Vec::new() }
    }

    /// Adds a system to the scheduler, after those already added.
    pub fn add_system<S: System + 'static>(&mut self, system: S)
        ensures
            final(self).num_systems() == old(self).num_systems() + 1,
            final(self).systems().len() == old(self).systems().len() + 1,
            final(self).systems().subrange(0, old(self).systems().len() as int) == old(self).systems(),
    {
        self.systems.push(SystemSlot::new(system));
        assert(self.systems().subrange(0, old(self).systems().len() as int) =~= old(self).systems());
    }

    /// Initializes all systems, in order: each system's hook runs once, on the
    /// world the previous one left.
    pub fn initialize(&mut self, world: &mut World)
        ensures
            final(self).num_systems() == old(self).num_systems(),
            final(self).systems().len() == old(self).systems().len(),
            exists|worlds: Seq<World>|
                #![trigger initializes_in_order(old(self).systems(), worlds)]
                initializes_in_order(old(self).systems(), worlds) && worlds[0] == *old(world)
                    && worlds.last() == *final(world),
    {
        let n = self.systems.len();
        let ghost worlds: Seq<World> = seq![*world];
        let mut i: usize = 0;
        while i < n
            invariant
                i <= n,
                n == self.systems@.len(),
                n == old(self).systems@.len(),
                forall|j: int| i <= j < n ==> self.systems@[j] == old(self).systems@[j],
                worlds.len() == i + 1,
                worlds[0] == *old(world),
                worlds.last() == *world,
                forall|j: int| 0 <= j < i ==> #[trigger] old(self).systems()[j].initializes(worlds[j], worlds[j + 1]),
            decreases n - i,
        {
            let ghost before = *world;
            let ghost current = self.systems@[i as int].system;
            self.systems[i].system.initialize(world);
            proof {
                assert(current.initializes(before, *world));
                assert(old(self).systems()[i as int] == current);
                worlds = worlds.push(*world);
            }
            i += 1;
        }
        assert(initializes_in_order(old(self).systems(), worlds));
    }

    /// Runs all systems, in order: each system runs once, on the world the
    /// previous one left.
    pub fn run(&mut self, world: &mut World)
        ensures
            final(self).num_systems() == old(self).num_systems(),
            final(self).systems().len() == old(self).systems().len(),
            exists|worlds: Seq<World>|
                #![trigger runs_in_order(old(self).systems(), worlds)]
                runs_in_order(old(self).systems(), worlds) && worlds[0] == *old(world)
                    && worlds.last() == *final(world),
    {
        let n = self.systems.len();
        let ghost worlds: Seq<World> = seq![*world];
        let mut i: usize = 0;
        while i < n
            invariant
                i <= n,
                n == self.systems@.len(),
                n == old(self).systems@.len(),
                forall|j: int| i <= j < n ==> self.systems@[j] == old(self).systems@[j],
                worlds.len() == i + 1,
                worlds[0] == *old(world),
                worlds.last() == *world,
                forall|j: int| 0 <= j < i ==> #[trigger] old(self).systems()[j].runs(worlds[j], worlds[j + 1]),
            decreases n - i,
        {
            let ghost before = *world;
            let ghost current = self.systems@[i as int].system;
            self.systems[i].system.run(world);
            proof {
                assert(current.runs(before, *world));
                assert(old(self).systems()[i as int] == current);
                worlds = worlds.push(*world);
            }
            i += 1;
        }
        assert(runs_in_order(old(self).systems(), worlds));
    }

    /// Cleans up all systems, in order: each system's hook runs once, on the
    /// world the previous one left.
    pub fn cleanup(&mut self, world: &mut World)
        ensures
            final(self).num_systems() == old(self).num_systems(),
            final(self).systems().len() == old(self).systems().len(),
            exists|worlds: Seq<World>|
                #![trigger cleans_up_in_order(old(self).systems(), worlds)]
                cleans_up_in_order(old(self).systems(), worlds) && worlds[0] == *old(world)
                    && worlds.last() == *final(world),
    {
        let n = self.systems.len();
        let ghost worlds: Seq<World> = seq![*world];
        let mut i: usize = 0;
        while i < n
            invariant
                i <= n,
                n == self.systems@.len(),
                n == old(self).systems@.len(),
                forall|j: int| i <= j < n ==> self.systems@[j] == old(self).systems@[j],
                worlds.len() == i + 1,
                worlds[0] == *old(world),
                worlds.last() == *world,
                forall|j: int| 0 <= j < i ==> #[trigger] old(self).systems()[j].cleans_up(worlds[j], worlds[j + 1]),
            decreases n - i,
        {
            let ghost before = *world;
            let ghost current = self.systems@[i as int].system;
            self.systems[i].system.cleanup(world);
            proof {
                assert(current.cleans_up(before, *world));
                assert(old(self).systems()[i as int] == current);
                worlds = worlds.push(*world);
            }
            i += 1;
        }
        assert(cleans_up_in_order(old(self).systems(), worlds));
    }
}

impl Default for Scheduler {
    fn default() -> (s: Self)
        ensures
            s.num_systems() == 0,
    {
        Self::new()
    }
}

} // verus!
