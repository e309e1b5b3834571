//! Asset handle for type-safe asset tracking.

use vstd::prelude::*;
use std::marker::PhantomData;

verus! {

/// Handle to a loaded asset.
#[derive(Debug, Eq, Hash)]
pub struct AssetHandle<T: std::fmt::Debug + 'static> {
    id: u64,
    _marker: PhantomData<T>,
}

impl<T: std::fmt::Debug + 'static> AssetHandle<T> {
    /// The internal ID of this handle.
    pub closed spec fn spec_id(&self) -> u64 {
        self.id
    }

    /// Creates a new asset handle from an ID.
    pub fn new(id: u64) -> (h: Self)
        ensures
            h.spec_id() == id,
    {
        Self { id, _marker: PhantomData }
    }

    /// Returns the internal ID of this handle.
    pub fn id(&self) -> (r: u64)
        ensures
            r == self.spec_id(),
    {
        self.id
    }
}

/// Two handles are equal when their ids are.
impl<T: std::fmt::Debug + 'static> PartialEq for AssetHandle<T> {
    fn eq(&self, other: &Self) -> (r: bool) {
        self.id == other.id
    }
}

impl<T: std::fmt::Debug + 'static> vstd::std_specs::cmp::PartialEqSpecImpl for AssetHandle<T> {
    open spec fn obeys_eq_spec() -> bool {
        true
    }

    open spec fn eq_spec(&self, other: &Self) -> bool {
        self.spec_id() == other.spec_id()
    }
}

impl<T: std::fmt::Debug + 'static> Copy for AssetHandle<T> {}

impl<T: std::fmt::Debug + 'static> Clone for AssetHandle<T> {
    fn clone(&self) -> (r: Self)
        ensures
            r.spec_id() == self.spec_id(),
    {
        Self { id: self.id, _marker: PhantomData }
    }
}

} // verus!
