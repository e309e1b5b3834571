//! Visible-entity set produced by spatial partitioning.

use vstd::prelude::*;

verus! {

/// Visible entities resource.
#[derive(Debug, Clone)]
pub struct VisibleEntities {
    pub entities: Vec<u64>,
}

impl Default for VisibleEntities {
    fn default() -> (v: Self)
        ensures
            v.entities@.len() == 0,
    {
        Self { entities: Vec::new() }
    }
}

} // verus!
