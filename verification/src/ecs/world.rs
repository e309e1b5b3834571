//! The world: the unified container of entities, component storages and
//! resources.

use vstd::prelude::*;
use std::any::TypeId;
use crate::ecs::entity::{Entity, EntityGenerator};
use crate::ecs::component::{Component, ComponentStorage, SparseStorage};
use crate::ecs::erased::{
    AnyBox, box_downcast_mut, box_downcast_ref, downcast_mut, downcast_ref, erase_box, same_key,
    type_key,
};

verus! {

/// Blanket trait for global state resources.
pub trait Resource: Send + Sync + 'static + Clone {}

impl<T: Send + Sync + 'static + Clone> Resource for T {}

/// The component storages, one per component type, each under its type's key:
/// `storages[i]` holds the components of the type keyed `keys[i]`.
struct ComponentTable {
    keys: Vec<TypeId>,
    storages: Vec<ErasedStorage>,
}

/// The storage of one component type, seen through `ComponentStorage`.
struct ErasedStorage {
    inner: Box<dyn ComponentStorage>,
}

impl ErasedStorage {
    /// An empty sparse storage for component type `T`.
    fn sparse<T: Component>() -> Self {
        let storage = SparseStorage::<T>::new();
        let inner: Box<dyn ComponentStorage> = Box::new(storage);
        ErasedStorage { inner }
    }
}

impl ComponentTable {
    /// Appends the storage `storage` under `key`.
    fn push(&mut self, key: TypeId, storage: ErasedStorage)
        ensures
            final(self).keys@ == old(self).keys@.push(key),
            final(self).storages@ == old(self).storages@.push(storage),
    {
        self.keys.push(key);
        self.storages.push(storage);
    }
}

/// The resources, one per resource type, each under its type's key:
/// `values[i]` is the resource of the type keyed `keys[i]`.
struct ResourceTable {
    keys: Vec<TypeId>,
    values: Vec<AnyBox>,
}

/// The unified state container for all entities, components, and resources.
pub struct World {
    entity_gen: EntityGenerator,
    component_id_bound: u64,
    components: ComponentTable,
    resources: ResourceTable,
}

/// Position of `key` in `keys`, if any.
fn key_index(keys: &Vec<TypeId>, key: &TypeId) -> (r: Option<usize>)
    ensures
        match r {
            Some(i) => i < keys@.len() && keys@[i as int] == *key,
            None => !keys@.contains(*key),
        },
{
    let n = keys.len();
    let mut i: usize = 0;
    while i < n
        invariant
            i <= n,
            n == keys@.len(),
            forall|j: int| 0 <= j < i ==> keys@[j] != *key,
        decreases n - i,
    {
        if same_key(&keys[i], key) {
            return Some(i);
        }
        i += 1;
    }
    None
}

/// Appending a key that `keys` does not hold keeps the keys distinct.
proof fn lemma_push_new_key(keys: Seq<TypeId>, key: TypeId)
    requires
        keys.no_duplicates(),
        !keys.contains(key),
    ensures
        keys.push(key).no_duplicates(),
{
    assert forall|a: int, b: int|
        0 <= a < keys.len() + 1 && 0 <= b < keys.len() + 1 && a != b
            implies keys.push(key)[a] != keys.push(key)[b] by {
        if a == keys.len() {
            assert(keys[b] != key);
        } else if b == keys.len() {
            assert(keys[a] != key);
        }
    }
}

impl World {
    /// No component type has two storages and no resource type two slots;
    /// every key has its storage or resource beside it.
    #[verifier::type_invariant]
    spec fn well_formed(self) -> bool {
        &&& self.components.keys@.no_duplicates()
        &&& self.components.storages@.len() == self.components.keys@.len()
        &&& self.resources.keys@.no_duplicates()
        &&& self.resources.values@.len() == self.resources.keys@.len()
    }

    /// The identifier of the next entity the world creates.
    pub closed spec fn next_entity(&self) -> u64 {
        self.entity_gen.next()
    }

    /// Upper bound (exclusive) of the ids of the entities created so far and
    /// of the entities that were given a component.
    pub closed spec fn id_bound(&self) -> u64 {
        if self.entity_gen.next() < self.component_id_bound {
            self.component_id_bound
        } else {
            self.entity_gen.next()
        }
    }

    /// The keys of the registered component storages, in registration order.
    pub closed spec fn component_keys(&self) -> Seq<TypeId> {
        self.components.keys@
    }

    /// The keys of the stored resources, in insertion order.
    pub closed spec fn resource_keys(&self) -> Seq<TypeId> {
        self.resources.keys@
    }

    /// Whether the storage at position `i` holds a component of entity id `id`.
    pub closed spec fn storage_holds(&self, i: int, id: u64) -> bool {
        self.components.storages@[i].inner.holds(id)
    }

    /// Whether any storage holds a component of entity id `id`.
    pub open spec fn has_any_component(&self, id: u64) -> bool {
        exists|i: int| 0 <= i < self.component_keys().len() && self.storage_holds(i, id)
    }

    /// Creates a new empty world.
    pub fn new() -> (w: Self)
        ensures
            w.next_entity() == 0,
            w.id_bound() == 0,
            w.component_keys().len() == 0,
            w.resource_keys().len() == 0,
    {
        Self {
            entity_gen: EntityGenerator::new(),
            component_id_bound: 0,
            components: ComponentTable { keys: Vec::new(), storages: Vec::new() },
            resources: ResourceTable { keys: Vec::new(), values: Vec::new() },
        }
    }

    /// Upper bound (exclusive) of the ids of the entities created so far
    /// and of the entities that were given a component.
    pub(crate) fn entity_id_bound(&self) -> (r: u64)
        ensures
            r == self.id_bound(),
    {
        let next = self.entity_gen.peek();
        if next < self.component_id_bound {
            self.component_id_bound
        } else {
            next
        }
    }

    /// Creates a new entity.
    pub fn create_entity(&mut self) -> (e: Entity)
        requires
            old(self).next_entity() < u64::MAX,
        ensures
            e.0 == old(self).next_entity(),
            final(self).next_entity() == old(self).next_entity() + 1,
            e.0 < final(self).id_bound(),
            final(self).id_bound() >= old(self).id_bound(),
            final(self).component_keys() == old(self).component_keys(),
            final(self).resource_keys() == old(self).resource_keys(),
            forall|i: int, id: u64| final(self).storage_holds(i, id) == old(self).storage_holds(i, id),
    {
        proof { use_type_invariant(&*self); }
        self.entity_gen.generate()
    }

    /// Destroys an entity and removes all its components.
    pub fn destroy_entity(&mut self, entity: Entity)
        ensures
            !final(self).has_any_component(entity.0),
            final(self).next_entity() == old(self).next_entity(),
            final(self).id_bound() == old(self).id_bound(),
            final(self).component_keys() == old(self).component_keys(),
            final(self).resource_keys() == old(self).resource_keys(),
            forall|i: int, id: u64|
                0 <= i < old(self).component_keys().len() && id != entity.0
                    ==> (final(self).storage_holds(i, id) == old(self).storage_holds(i, id)),
    {
        proof { use_type_invariant(&*self); }
        let n = self.components.storages.len();
        let mut i: usize = 0;
        while i < n
            invariant
                i <= n,
                n == self.components.storages@.len(),
                n == self.components.keys@.len(),
                self.entity_gen == old(self).entity_gen,
                self.component_id_bound == old(self).component_id_bound,
                self.resources == old(self).resources,
                self.components.keys == old(self).components.keys,
                old(self).components.keys@.no_duplicates(),
                old(self).resources.keys@.no_duplicates(),
                old(self).resources.values@.len() == old(self).resources.keys@.len(),
                forall|j: int| 0 <= j < i ==> !self.storage_holds(j, entity.0),
                forall|j: int, id: u64|
                    0 <= j < n && id != entity.0
                        ==> (self.storage_holds(j, id) == old(self).storage_holds(j, id)),
                forall|j: int, id: u64|
                    i <= j < n ==> (self.storage_holds(j, id) == old(self).storage_holds(j, id)),
            decreases n - i,
        {
            let ghost before = *self;
            self.components.storages[i].inner.remove(entity);
            proof {
                assert(self.components.storages@ == before.components.storages@.update(
                    i as int,
                    self.components.storages@[i as int],
                ));
                assert(!self.storage_holds(i as int, entity.0));
                assert forall|j: int| 0 <= j < i + 1 implies !self.storage_holds(j, entity.0) by {
                    if j < i {
                        assert(!before.storage_holds(j, entity.0));
                        assert(self.components.storages@[j] == before.components.storages@[j]);
                    }
                }
            }
            i += 1;
        }
    }

    /// The storage part of the world is unchanged, apart from new storages
    /// appended at the end (at most one); no key occurs twice.
    pub open spec fn storages_extended(old_w: World, new_w: World) -> bool {
        let n = old_w.component_keys().len();
        &&& new_w.component_keys().len() == n || new_w.component_keys().len() == n + 1
        &&& new_w.component_keys().subrange(0, n as int) == old_w.component_keys()
        &&& new_w.component_keys().no_duplicates()
        &&& new_w.component_keys().len() > 0
    }

    /// Registers a component type in the world.
    pub fn register_component<T: Component>(&mut self)
        ensures
            World::storages_extended(*old(self), *final(self)),
            forall|i: int, id: u64|
                0 <= i < old(self).component_keys().len()
                    ==> (final(self).storage_holds(i, id) == old(self).storage_holds(i, id)),
            final(self).next_entity() == old(self).next_entity(),
            final(self).id_bound() == old(self).id_bound(),
            final(self).resource_keys() == old(self).resource_keys(),
    {
        proof { use_type_invariant(&*self); }
        let key = type_key::<T>();
        let ghost before = *self;
        if key_index(&self.components.keys, &key).is_none() {
            let mut table = ComponentTable { keys: Vec::new(), storages: Vec::new() };
            std::mem::swap(&mut table, &mut self.components);
            table.push(key, ErasedStorage::sparse::<T>());
            proof {
                lemma_push_new_key(before.component_keys(), key);
            }
            self.components = table;
            proof {
                assert(self.component_keys().subrange(0, before.component_keys().len() as int)
                    =~= before.component_keys());
                assert forall|i: int, id: u64| 0 <= i < before.component_keys().len()
                    implies (self.storage_holds(i, id) == before.storage_holds(i, id)) by {
                    assert(self.components.storages@[i] == before.components.storages@[i]);
                }
            }
        } else {
            assert(self.component_keys().subrange(0, self.component_keys().len() as int)
                =~= self.component_keys());
        }
    }

    /// Adds a component to an entity, registering its type if needed.
    pub fn add_component<T: Component>(&mut self, entity: Entity, component: T)
        requires
            entity.0 < usize::MAX,
        ensures
            World::storages_extended(*old(self), *final(self)),
            final(self).next_entity() == old(self).next_entity(),
            final(self).resource_keys() == old(self).resource_keys(),
            entity.0 < final(self).id_bound(),
            final(self).id_bound() >= old(self).id_bound(),
    {
        proof { use_type_invariant(&*self); }
        if self.component_id_bound <= entity.0 {
            self.component_id_bound = entity.0 + 1;
        }
        self.register_component::<T>();
        proof { use_type_invariant(&*self); }
        let ghost registered = *self;
        let key = type_key::<T>();
        match key_index(&self.components.keys, &key) {
            Some(i) => {
                match downcast_mut::<SparseStorage<T>>(self.components.storages[i].inner.as_any_mut()) {
                    Some(storage) => storage.insert(entity, component),
                    None => {},
                }
                assert(self.component_keys() =~= registered.component_keys());
            },
            None => {},
        }
    }

    /// Gets an immutable reference to the component of type `T` of `entity`.
    pub fn get_component<T: Component>(&self, entity: Entity) -> (r: Option<&T>)
        ensures
            self.component_keys().len() == 0 ==> r is None,
            r is Some ==> self.has_any_component(entity.0),
    {
        proof { use_type_invariant(self); }
        let key = type_key::<T>();
        match key_index(&self.components.keys, &key) {
            Some(i) => {
                if !self.components.storages[i].inner.has(entity) {
                    return None;
                }
                assert(self.storage_holds(i as int, entity.0));
                match downcast_ref::<SparseStorage<T>>(self.components.storages[i].inner.as_any()) {
                    Some(storage) => storage.get(entity),
                    None => None,
                }
            },
            None => None,
        }
    }

    /// Gets a mutable reference to the component of type `T` of `entity`.
    pub fn get_component_mut<T: Component>(&mut self, entity: Entity) -> (r: Option<&mut T>)
        ensures
            old(self).component_keys().len() == 0 ==> r is None,
            r is Some ==> old(self).has_any_component(entity.0),
            final(self).component_keys() == old(self).component_keys(),
            final(self).next_entity() == old(self).next_entity(),
            final(self).id_bound() == old(self).id_bound(),
            final(self).resource_keys() == old(self).resource_keys(),
    {
        proof { use_type_invariant(&*self); }
        let key = type_key::<T>();
        let ghost before = *self;
        match key_index(&self.components.keys, &key) {
            Some(i) => {
                if !self.components.storages[i].inner.has(entity) {
                    return None;
                }
                assert(before.storage_holds(i as int, entity.0));
                let r = match downcast_mut::<SparseStorage<T>>(self.components.storages[i].inner.as_any_mut()) {
                    Some(storage) => storage.get_mut(entity),
                    None => None,
                };
                r
            },
            None => None,
        }
    }

    /// Checks if an entity has a component of type `T`.
    pub fn has_component<T: Component>(&self, entity: Entity) -> (r: bool)
        ensures
            r ==> self.has_any_component(entity.0),
    {
        proof { use_type_invariant(self); }
        let key = type_key::<T>();
        match key_index(&self.components.keys, &key) {
            Some(i) => {
                let r = self.components.storages[i].inner.has(entity);
                assert(r ==> self.storage_holds(i as int, entity.0));
                r
            },
            None => false,
        }
    }

    /// Returns every entity that has a component of type `T`, with that component.
    pub fn iter_components<T: Component>(&self) -> (r: Vec<(Entity, &T)>)
        ensures
            self.component_keys().len() == 0 ==> r@.len() == 0,
    {
        proof { use_type_invariant(self); }
        let key = type_key::<T>();
        match key_index(&self.components.keys, &key) {
            Some(i) => match downcast_ref::<SparseStorage<T>>(self.components.storages[i].inner.as_any()) {
                Some(storage) => storage.iter(),
                None => Vec::new(),
            },
            None => Vec::new(),
        }
    }

    /// The resource part of the world is unchanged, apart from a resource
    /// appended at the end (at most one); no key occurs twice.
    pub open spec fn resources_extended(old_w: World, new_w: World) -> bool {
        let n = old_w.resource_keys().len();
        &&& new_w.resource_keys().len() == n || new_w.resource_keys().len() == n + 1
        &&& new_w.resource_keys().subrange(0, n as int) == old_w.resource_keys()
        &&& new_w.resource_keys().no_duplicates()
        &&& new_w.resource_keys().len() > 0
    }

    /// Adds a resource to the world, replacing any resource of the same type.
    pub fn add_resource<R: Resource>(&mut self, resource: R)
        ensures
            World::resources_extended(*old(self), *final(self)),
            final(self).next_entity() == old(self).next_entity(),
            final(self).id_bound() == old(self).id_bound(),
            final(self).component_keys() == old(self).component_keys(),
            forall|i: int, id: u64| final(self).storage_holds(i, id) == old(self).storage_holds(i, id),
    {
        proof { use_type_invariant(&*self); }
        let key = type_key::<R>();
        let ghost before = *self;
        let mut table = ResourceTable { keys: Vec::new(), values: Vec::new() };
        std::mem::swap(&mut table, &mut self.resources);
        match key_index(&table.keys, &key) {
            Some(i) => {
                table.values.set(i, erase_box(resource));
                self.resources = table;
                assert(self.resource_keys().subrange(0, self.resource_keys().len() as int)
                    =~= self.resource_keys());
            },
            None => {
                table.keys.push(key);
                table.values.push(erase_box(resource));
                proof {
                    lemma_push_new_key(before.resource_keys(), key);
                }
                self.resources = table;
                assert(self.resource_keys().subrange(0, before.resource_keys().len() as int)
                    =~= before.resource_keys());
            },
        }
    }

    /// Gets an immutable reference to the resource of type `R`.
    pub fn get_resource<R: Resource>(&self) -> (r: Option<&R>)
        ensures
            self.resource_keys().len() == 0 ==> r is None,
    {
        proof { use_type_invariant(self); }
        let key = type_key::<R>();
        match key_index(&self.resources.keys, &key) {
            Some(i) => box_downcast_ref::<R>(&self.resources.values[i]),
            None => None,
        }
    }

    /// Gets a mutable reference to the resource of type `R`.
    pub fn get_resource_mut<R: Resource>(&mut self) -> (r: Option<&mut R>)
        ensures
            old(self).resource_keys().len() == 0 ==> r is None,
            final(self).resource_keys() == old(self).resource_keys(),
            final(self).next_entity() == old(self).next_entity(),
            final(self).id_bound() == old(self).id_bound(),
            final(self).component_keys() == old(self).component_keys(),
            forall|i: int, id: u64| final(self).storage_holds(i, id) == old(self).storage_holds(i, id),
    {
        proof { use_type_invariant(&*self); }
        let key = type_key::<R>();
        match key_index(&self.resources.keys, &key) {
            Some(i) => box_downcast_mut::<R>(&mut self.resources.values[i]),
            None => None,
        }
    }
}

impl Default for World {
    fn default() -> (w: Self)
        ensures
            w.next_entity() == 0,
            w.component_keys().len() == 0,
            w.resource_keys().len() == 0,
    {
        Self::new()
    }
}

} // verus!
