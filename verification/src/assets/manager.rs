//! Asset manager: loads assets by path, once per path.

use vstd::prelude::*;
use crate::engine_core::error::EngineResult;
use crate::assets::handle::AssetHandle;
use crate::ecs::erased::{AnyBox, box_downcast_mut, box_downcast_ref, erase_box};

verus! {

/// Trait for all assets.
pub trait Asset: Clone + std::fmt::Debug + Send + Sync + 'static {}

impl<T: Clone + std::fmt::Debug + Send + Sync + 'static> Asset for T {}

/// Manager for loaded assets.
///
/// Asset ids are handed out in load order: the asset with id `i` was
/// loaded from `paths[i]` and is `assets[i]`.
pub struct AssetManager {
    paths: Vec<String>,
    assets: Vec<AnyBox>,
}

impl AssetManager {
    /// No path is loaded twice.
    #[verifier::type_invariant]
    spec fn unique_paths(self) -> bool {
        self.asset_paths().no_duplicates()
    }

    /// The paths loaded so far, indexed by asset id.
    pub closed spec fn asset_paths(&self) -> Seq<Seq<char>> {
        self.paths@.map_values(|p: String| p@)
    }

    /// Creates a new empty asset manager.
    pub fn new() -> (m: Self)
        ensures
            m.asset_paths().len() == 0,
            m.asset_paths().no_duplicates(),
    {
        let m = Self { paths: Vec::new(), assets: Vec::new() };
        assert(m.asset_paths() =~= Seq::<Seq<char>>::empty());
        m
    }
}

impl AssetManager {

    /// Position of `path` among the loaded paths, if it was loaded.
    fn find_path(&self, path: &String) -> (r: Option<usize>)
        ensures
            match r {
                Some(i) => i < self.asset_paths().len() && self.asset_paths()[i as int] == path@,
                None => !self.asset_paths().contains(path@),
            },
    {
        let n = self.paths.len();
        let mut i: usize = 0;
        while i < n
            invariant
                i <= n,
                n == self.paths@.len(),
                forall|j: int| 0 <= j < i ==> self.asset_paths()[j] != path@,
            decreases n - i,
        {
            if self.paths[i] == *path {
                return Some(i);
            }
            i += 1;
        }
        proof {
            assert forall|j: int| 0 <= j < self.asset_paths().len() implies self.asset_paths()[j] != path@ by {}
        }
        None
    }

    /// Loads an asset from a path.
    ///
    /// A path that was loaded before gives back its handle; a new path gets the
    /// next id, with a default-valued placeholder asset stored under it.
    pub fn load<T: Asset + Default>(&mut self, path: &str) -> (r: EngineResult<AssetHandle<T>>)
        requires
            old(self).asset_paths().len() < u64::MAX,
        ensures
            match r {
                Ok(handle) => {
                    if old(self).asset_paths().contains(path@) {
                        &&& handle.spec_id() < old(self).asset_paths().len()
                        &&& old(self).asset_paths()[handle.spec_id() as int] == path@
                        &&& final(self).asset_paths() == old(self).asset_paths()
                    } else {
                        &&& handle.spec_id() == old(self).asset_paths().len()
                        &&& final(self).asset_paths() == old(self).asset_paths().push(path@)
                    }
                },
                Err(_) => false,
            },
            final(self).asset_paths().no_duplicates(),
    {
        proof { use_type_invariant(&*self); }
        let owned = path.to_owned();
        match self.find_path(&owned) {
            Some(i) => Ok(AssetHandle::new(i as u64)),
            None => {
                let id = self.paths.len() as u64;
                let ghost before = self.asset_paths();
                let mut paths: Vec<String> = Vec::new();
                let mut assets: Vec<AnyBox> = Vec::new();
                std::mem::swap(&mut paths, &mut self.paths);
                std::mem::swap(&mut assets, &mut self.assets);
                paths.push(owned);
                assets.push(erase_box(T::default()));
                let ghost after = paths@.map_values(|p: String| p@);
                assert(after =~= before.push(path@));
                proof {
                    assert forall|a: int, b: int|
                        0 <= a < after.len() && 0 <= b < after.len() && a != b
                        implies after[a] != after[b] by {
                        if a == before.len() {
                            assert(before[b] == after[b]);
                        } else if b == before.len() {
                            assert(before[a] == after[a]);
                        }
                    }
                }
                self.paths = paths;
                self.assets = assets;
                Ok(AssetHandle::new(id))
            },
        }
    }

    /// Gets an immutable reference to an asset.
    pub fn get<T: Asset>(&self, handle: AssetHandle<T>) -> (r: Option<&T>)
        ensures
            r is Some ==> handle.spec_id() < self.asset_paths().len(),
    {
        proof { use_type_invariant(self); }
        let id = handle.id();
        if id >= self.paths.len() as u64 || id >= self.assets.len() as u64 {
            return None;
        }
        box_downcast_ref::<T>(&self.assets[id as usize])
    }

    /// Gets a mutable reference to an asset.
    pub fn get_mut<T: Asset>(&mut self, handle: AssetHandle<T>) -> (r: Option<&mut T>)
        ensures
            r is Some ==> handle.spec_id() < old(self).asset_paths().len(),
            final(self).asset_paths() == old(self).asset_paths(),
    {
        proof { use_type_invariant(&*self); }
        let id = handle.id();
        if id >= self.paths.len() as u64 || id >= self.assets.len() as u64 {
            return None;
        }
        box_downcast_mut::<T>(&mut self.assets[id as usize])
    }
}

/// In a path table without duplicates, one path has one id: two loads of
/// the same path give the same handle.
pub proof fn lemma_one_id_per_path(paths: Seq<Seq<char>>, path: Seq<char>, id1: int, id2: int)
    requires
        paths.no_duplicates(),
        0 <= id1 < paths.len(),
        0 <= id2 < paths.len(),
        paths[id1] == path,
        paths[id2] == path,
    ensures
        id1 == id2,
{
}

impl Default for AssetManager {
    fn default() -> (m: Self)
        ensures
            m.asset_paths().len() == 0,
            m.asset_paths().no_duplicates(),
    {
        Self::new()
    }
}

} // verus!
