//! Cache-friendly component storage using sparse sets.

use vstd::prelude::*;
use crate::ecs::entity::Entity;
use crate::ecs::erased::{AnyMut, AnyRef, erase_mut, erase_ref};

verus! {

/// Blanket marker trait for all components.
pub trait Component: Clone + Send + Sync + 'static + std::fmt::Debug {}

impl<T: Clone + Send + Sync + 'static + std::fmt::Debug> Component for T {}

/// Type-erased interface of a component storage: what the world needs in
/// order to remove an entity from every storage.
pub trait ComponentStorage: Send + Sync {
    /// Whether this storage holds a component for entity id `id`.
    spec fn holds(&self, id: u64) -> bool;

    /// Number of stored components.
    spec fn count(&self) -> nat;

    /// Removes the component of `entity`, if any.
    fn remove(&mut self, entity: Entity)
        ensures
            !final(self).holds(entity.0),
            forall|id: u64| id != entity.0 ==> (final(self).holds(id) <==> old(self).holds(id)),
    ;

    /// Whether `entity` has a component here.
    fn has(&self, entity: Entity) -> (r: bool)
        ensures
            r == self.holds(entity.0),
    ;

    /// Number of stored components.
    fn len(&self) -> (r: usize)
        ensures
            r == self.count(),
    ;

    /// The storage seen through `dyn Any`, for downcasting to its concrete type.
    fn as_any(&self) -> AnyRef<'_>;

    /// The storage seen through `dyn Any`, for downcasting to its concrete type.
    fn as_any_mut(&mut self) -> AnyMut<'_>;

    /// Whether the storage holds no component.
    fn is_empty(&self) -> (r: bool)
        ensures
            r == (self.count() == 0),
    {
        self.len() == 0
    }
}

/// The three arrays behind a sparse storage.
///
/// `sparse[id]` gives the position in `dense`/`data` of the component of
/// entity `id`; `dense[i]` is the entity whose component is `data[i]`.
struct SparseSet<T> {
    sparse: Vec<Option<usize>>,
    dense: Vec<Entity>,
    data: Vec<T>,
}

impl<T> SparseSet<T> {
    /// The sparse, dense and data arrays agree with one another.
    pub closed spec fn wf(&self) -> bool {
        &&& self.dense@.len() == self.data@.len()
        &&& forall|i: int|
            #![trigger self.dense@[i]]
            0 <= i < self.dense@.len() ==> {
                &&& (self.dense@[i].0 as int) < self.sparse@.len()
                &&& self.sparse@[self.dense@[i].0 as int] == Some(i as usize)
            }
        &&& forall|k: int|
            #![trigger self.sparse@[k]]
            0 <= k < self.sparse@.len() && self.sparse@[k] is Some ==> {
                &&& (self.sparse@[k]->0 as int) < self.dense@.len()
                &&& self.dense@[self.sparse@[k]->0 as int].0 as int == k
            }
    }

    /// Whether entity id `id` has a component here.
    pub closed spec fn contains(&self, id: u64) -> bool {
        &&& (id as int) < self.sparse@.len()
        &&& self.sparse@[id as int] is Some
    }

    /// The component of entity id `id` (meaningful when `contains(id)`).
    pub closed spec fn component(&self, id: u64) -> T {
        self.data@[self.sparse@[id as int]->0 as int]
    }

    /// The storage as a map from entity ids to components.
    pub closed spec fn view(&self) -> Map<u64, T> {
        Map::new(|id: u64| self.contains(id), |id: u64| self.component(id))
    }

    /// The entities with a component, in storage order.
    pub closed spec fn entities(&self) -> Seq<Entity> {
        self.dense@
    }

    /// Inserts or updates the component of `entity`.
    pub fn insert(&mut self, entity: Entity, component: T)
        requires
            old(self).wf(),
            entity.0 < usize::MAX,
        ensures
            final(self).wf(),
            final(self)@ == old(self)@.insert(entity.0, component),
    {
        let entity_id = entity.0 as usize;
        // Ensure the sparse array is large enough.
        while self.sparse.len() <= entity_id
            invariant
                self.wf(),
                self@ == old(self)@,
                entity_id == entity.0,
                entity_id < usize::MAX,
            decreases entity_id + 1 - self.sparse@.len(),
        {
            let ghost before = self@;
            self.sparse.push(None);
            assert(self@ =~= before);
        }
        match self.sparse[entity_id] {
            Some(index) => {
                // Update the existing component.
                self.data.set(index, component);
                assert(self@ =~= old(self)@.insert(entity.0, component));
            },
            None => {
                // Add a new component.
                let index = self.data.len();
                self.sparse.set(entity_id, Some(index));
                self.dense.push(entity);
                self.data.push(component);
                assert(self@ =~= old(self)@.insert(entity.0, component));
            },
        }
    }

    /// Gets an immutable reference to the component of `entity`.
    pub fn get(&self, entity: Entity) -> (r: Option<&T>)
        requires
            self.wf(),
        ensures
            r == (if self@.contains_key(entity.0) { Some(&self@[entity.0]) } else { None }),
    {
        if entity.0 >= self.sparse.len() as u64 {
            return None;
        }
        let entity_id = entity.0 as usize;
        match self.sparse[entity_id] {
            Some(index) => Some(&self.data[index]),
            None => None,
        }
    }

    /// Gets a mutable reference to the component of `entity`.
    pub fn get_mut(&mut self, entity: Entity) -> (r: Option<&mut T>)
        requires
            old(self).wf(),
        ensures
            final(self).wf(),
            match r {
                Some(c) => {
                    &&& old(self)@.contains_key(entity.0)
                    &&& *c == old(self)@[entity.0]
                    &&& final(self)@ == old(self)@.insert(entity.0, *final(c))
                },
                None => {
                    &&& !old(self)@.contains_key(entity.0)
                    &&& final(self)@ == old(self)@
                },
            },
        no_unwind
    {
        if entity.0 >= self.sparse.len() as u64 {
            return None;
        }
        let entity_id = entity.0 as usize;
        match self.sparse[entity_id] {
            Some(index) => Some(&mut self.data[index]),
            None => None,
        }
    }

    /// The entity at position `index` of the storage order, with mutable
    /// access to its component.
    pub fn get_mut_at(&mut self, index: usize) -> (r: Option<(Entity, &mut T)>)
        requires
            old(self).wf(),
        ensures
            final(self).wf(),
            final(self).entities() == old(self).entities(),
            match r {
                Some((e, c)) => {
                    &&& index < old(self).entities().len()
                    &&& e == old(self).entities()[index as int]
                    &&& old(self)@.contains_key(e.0)
                    &&& *c == old(self)@[e.0]
                    &&& final(self)@ == old(self)@.insert(e.0, *final(c))
                },
                None => {
                    &&& index >= old(self).entities().len()
                    &&& final(self)@ == old(self)@
                },
            },
        no_unwind
    {
        if index >= self.data.len() {
            return None;
        }
        let e = self.dense[index];
        assert(self.sparse@[e.0 as int] == Some(index));
        Some((e, &mut self.data[index]))
    }

    /// Removes the component of `entity`, returning it if there was one.
    ///
    /// The last stored component moves into the freed slot, so the storage
    /// stays dense.
    pub fn remove(&mut self, entity: Entity) -> (r: Option<T>)
        requires
            old(self).wf(),
        ensures
            final(self).wf(),
            r == (if old(self)@.contains_key(entity.0) { Some(old(self)@[entity.0]) } else { None }),
            final(self)@ == old(self)@.remove(entity.0),
    {
        if entity.0 >= self.sparse.len() as u64 {
            assert(self@ =~= old(self)@.remove(entity.0));
            return None;
        }
        let entity_id = entity.0 as usize;
        match self.sparse[entity_id] {
            None => {
                assert(self@ =~= old(self)@.remove(entity.0));
                None
            },
            Some(index) => {
                let ghost old_dense = self.dense@;
                let ghost old_data = self.data@;
                let ghost old_sparse = self.sparse@;
                let ghost last = (old_dense.len() - 1) as int;
                let component = self.data.swap_remove(index);
                let last_entity = self.dense.pop();
                if index < self.data.len() {
                    match last_entity {
                        Some(moved) => {
                            assert(old_sparse[old_dense[last].0 as int] == Some(last as usize));
                            self.sparse.set(moved.0 as usize, Some(index));
                            self.dense.set(index, moved);
                        },
                        None => {},
                    }
                }
                self.sparse.set(entity_id, None);
                proof {
                    assert forall|i: int|
                        #![trigger self.dense@[i]]
                        0 <= i < self.dense@.len() implies {
                            &&& (self.dense@[i].0 as int) < self.sparse@.len()
                            &&& self.sparse@[self.dense@[i].0 as int] == Some(i as usize)
                        } by {
                        if i == index as int {
                            assert(old_sparse[old_dense[last].0 as int] == Some(last as usize));
                        } else {
                            assert(old_sparse[old_dense[i].0 as int] == Some(i as usize));
                        }
                    }
                    assert forall|k: int|
                        #![trigger self.sparse@[k]]
                        0 <= k < self.sparse@.len() && self.sparse@[k] is Some implies {
                            &&& (self.sparse@[k]->0 as int) < self.dense@.len()
                            &&& self.dense@[self.sparse@[k]->0 as int].0 as int == k
                        } by {
                        if k != entity_id as int && k != old_dense[last].0 as int {
                            assert(old_sparse[k] is Some);
                            let j = old_sparse[k]->0 as int;
                            assert(old_dense[j].0 as int == k);
                        }
                    }
                    assert(self.wf());
                    assert forall|id: u64| #![auto] self.contains(id) == old(self)@.remove(entity.0).contains_key(id)
                        by {
                        if id != entity.0 && (id as int) < old_sparse.len() && old_sparse[id as int] is Some {
                            let j = old_sparse[id as int]->0 as int;
                            assert(old_dense[j].0 == id);
                        }
                    }
                    assert forall|id: u64| #![auto] self.contains(id) implies self.component(id) == old(self)@[id]
                        by {
                        let j = old_sparse[id as int]->0 as int;
                        assert(old_dense[j].0 == id);
                    }
                    assert(self@ =~= old(self)@.remove(entity.0));
                }
                Some(component)
            },
        }
    }

    /// The number of stored components equals the number of entities in the map view.
    proof fn lemma_len_matches_view(&self)
        requires
            self.wf(),
        ensures
            self@.dom().finite(),
            self@.dom().len() == self.entities().len(),
    {
        let ids = self.dense@.map_values(|e: Entity| e.0);
        assert(ids.no_duplicates()) by {
            assert forall|i: int, j: int| 0 <= i < ids.len() && 0 <= j < ids.len() && i != j
                implies ids[i] != ids[j] by {
                assert(self.dense@.len() == self.dense.len());
                assert(self.sparse@[self.dense@[i].0 as int] == Some(i as usize));
                assert(self.sparse@[self.dense@[j].0 as int] == Some(j as usize));
            }
        }
        assert(ids.to_set() =~= self@.dom()) by {
            assert forall|id: u64| self@.dom().contains(id) implies ids.to_set().contains(id) by {
                let j = self.sparse@[id as int]->0 as int;
                assert(ids[j] == id);
            }
            assert forall|id: u64| ids.to_set().contains(id) implies self@.dom().contains(id) by {
                let j = choose|j: int| 0 <= j < ids.len() && ids[j] == id;
                assert(self.dense@[j].0 == id);
            }
        }
        ids.unique_seq_to_set();
    }

    /// Returns all entities and their components, in storage order.
    fn iter(&self) -> (r: Vec<(Entity, &T)>)
        requires
            self.wf(),
        ensures
            r@.len() == self.entities().len(),
            forall|i: int| #![trigger r@[i]] 0 <= i < r@.len() ==> {
                &&& r@[i].0 == self.entities()[i]
                &&& self@.contains_key(r@[i].0.0)
                &&& *r@[i].1 == self@[r@[i].0.0]
            },
            forall|id: u64| #[trigger] self@.contains_key(id) ==>
                exists|i: int| 0 <= i < r@.len() && r@[i].0.0 == id,
    {
        let mut r: Vec<(Entity, &T)> = Vec::new();
        let n = self.dense.len();
        let mut i: usize = 0;
        while i < n
            invariant
                self.wf(),
                n == self.dense@.len(),
                i <= n,
                r@.len() == i,
                forall|j: int| #![trigger r@[j]] 0 <= j < i ==> {
                    &&& r@[j].0 == self.dense@[j]
                    &&& *r@[j].1 == self.data@[j]
                },
            decreases n - i,
        {
            r.push((self.dense[i], &self.data[i]));
            i += 1;
        }
        proof {
            assert forall|j: int| #![trigger r@[j]] 0 <= j < r@.len() implies {
                &&& self@.contains_key(r@[j].0.0)
                &&& *r@[j].1 == self@[r@[j].0.0]
            } by {
                assert(self.sparse@[self.dense@[j].0 as int] == Some(j as usize));
            }
            assert forall|id: u64| #[trigger] self@.contains_key(id) implies
                exists|j: int| 0 <= j < r@.len() && r@[j].0.0 == id by {
                let j = self.sparse@[id as int]->0 as int;
                assert(r@[j].0.0 == id);
            }
        }
        r
    }

    /// Creates a new empty sparse storage.
    pub fn new() -> (s: Self)
        ensures
            s.wf(),
            s@ == Map::<u64, T>::empty(),
            s.entities().len() == 0,
    {
        let s = Self { sparse: Vec::new(), dense: Vec::new(), data: Vec::new() };
        assert(s@ =~= Map::<u64, T>::empty());
        s
    }
}

/// Sparse set storage for a specific component type.
pub struct SparseStorage<T> {
    set: SparseSet<T>,
}

impl<T> SparseStorage<T> {
    #[verifier::type_invariant]
    spec fn inv(self) -> bool {
        self.set.wf()
    }

    /// The storage as a map from entity ids to components.
    pub closed spec fn view(&self) -> Map<u64, T> {
        self.set@
    }

    /// The entities with a component, in storage order.
    pub closed spec fn entities(&self) -> Seq<Entity> {
        self.set.entities()
    }

    /// Creates a new empty sparse storage.
    pub fn new() -> (s: Self)
        ensures
            s@ == Map::<u64, T>::empty(),
            s.entities().len() == 0,
    {
        Self { set: SparseSet::new() }
    }

    /// Inserts or updates the component of `entity`.
    pub fn insert(&mut self, entity: Entity, component: T)
        requires
            entity.0 < usize::MAX,
        ensures
            final(self)@ == old(self)@.insert(entity.0, component),
            old(self)@.dom().finite(),
            final(self)@.len() == if old(self)@.contains_key(entity.0) {
                old(self)@.len()
            } else {
                old(self)@.len() + 1
            },
    {
        proof {
            use_type_invariant(&*self);
            self.set.lemma_len_matches_view();
        }
        let mut set = SparseSet::new();
        std::mem::swap(&mut set, &mut self.set);
        set.insert(entity, component);
        self.set = set;
    }

    /// Gets an immutable reference to the component of `entity`.
    pub fn get(&self, entity: Entity) -> (r: Option<&T>)
        ensures
            r == (if self@.contains_key(entity.0) { Some(&self@[entity.0]) } else { None }),
    {
        proof { use_type_invariant(self); }
        self.set.get(entity)
    }

    /// Gets a mutable reference to the component of `entity`.
    pub fn get_mut(&mut self, entity: Entity) -> (r: Option<&mut T>)
        ensures
            match r {
                Some(c) => {
                    &&& old(self)@.contains_key(entity.0)
                    &&& *c == old(self)@[entity.0]
                    &&& final(self)@ == old(self)@.insert(entity.0, *final(c))
                },
                None => {
                    &&& !old(self)@.contains_key(entity.0)
                    &&& final(self)@ == old(self)@
                },
            },
    {
        proof { use_type_invariant(&*self); }
        self.set.get_mut(entity)
    }

    /// The entity at position `index` of the storage order (see `iter`),
    /// with mutable access to its component: visiting the positions
    /// `0..len()` gives mutable access to every component.
    pub fn get_mut_at(&mut self, index: usize) -> (r: Option<(Entity, &mut T)>)
        ensures
            final(self).entities() == old(self).entities(),
            match r {
                Some((e, c)) => {
                    &&& index < old(self).entities().len()
                    &&& e == old(self).entities()[index as int]
                    &&& old(self)@.contains_key(e.0)
                    &&& *c == old(self)@[e.0]
                    &&& final(self)@ == old(self)@.insert(e.0, *final(c))
                },
                None => {
                    &&& index >= old(self).entities().len()
                    &&& final(self)@ == old(self)@
                },
            },
    {
        proof { use_type_invariant(&*self); }
        self.set.get_mut_at(index)
    }

    /// Removes the component of `entity`, returning it if there was one.
    pub fn remove(&mut self, entity: Entity) -> (r: Option<T>)
        ensures
            r == (if old(self)@.contains_key(entity.0) { Some(old(self)@[entity.0]) } else { None }),
            final(self)@ == old(self)@.remove(entity.0),
            old(self)@.dom().finite(),
            final(self)@.len() == if old(self)@.contains_key(entity.0) {
                old(self)@.len() - 1
            } else {
                old(self)@.len() as int
            },
    {
        proof {
            use_type_invariant(&*self);
            self.set.lemma_len_matches_view();
        }
        let mut set = SparseSet::new();
        std::mem::swap(&mut set, &mut self.set);
        let r = set.remove(entity);
        self.set = set;
        r
    }
}

impl<T> SparseStorage<T> {
    /// Returns all entities and their components, in storage order.
    pub fn iter(&self) -> (r: Vec<(Entity, &T)>)
        ensures
            r@.len() == self.entities().len(),
            forall|i: int| #![trigger r@[i]] 0 <= i < r@.len() ==> {
                &&& r@[i].0 == self.entities()[i]
                &&& self@.contains_key(r@[i].0.0)
                &&& *r@[i].1 == self@[r@[i].0.0]
            },
            forall|id: u64| #[trigger] self@.contains_key(id) ==>
                exists|i: int| 0 <= i < r@.len() && r@[i].0.0 == id,
    {
        proof { use_type_invariant(self); }
        self.set.iter()
    }
}

impl<T> Default for SparseStorage<T> {
    fn default() -> (s: Self)
        ensures
            s@ == Map::<u64, T>::empty(),
    {
        Self::new()
    }
}

impl<T: Component> ComponentStorage for SparseStorage<T> {
    open spec fn holds(&self, id: u64) -> bool {
        self@.contains_key(id)
    }

    open spec fn count(&self) -> nat {
        self.entities().len()
    }

    fn remove(&mut self, entity: Entity) {
        let _ = SparseStorage::remove(self, entity);
    }

    fn has(&self, entity: Entity) -> (r: bool) {
        self.get(entity).is_some()
    }

    fn len(&self) -> (r: usize)
        ensures
            r == self@.len(),
    {
        proof {
            use_type_invariant(self);
            self.set.lemma_len_matches_view();
        }
        self.set.data.len()
    }

    fn as_any(&self) -> AnyRef<'_> {
        erase_ref(self)
    }

    fn as_any_mut(&mut self) -> AnyMut<'_> {
        erase_mut(self)
    }
}

} // verus!
