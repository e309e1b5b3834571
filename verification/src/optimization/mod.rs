//! Optimization support: octree cells and visibility results.

pub mod octree;
pub mod spatial_partition;

pub use spatial_partition::VisibleEntities;
