//! Entity-component-system: entities, sparse component storage, world, systems.

pub mod entity;
pub mod component;
pub mod erased;
pub mod world;
pub mod system;
pub mod scheduler;
pub mod query;
