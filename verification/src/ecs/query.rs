//! Queries: iteration over the entities that have a given set of components.

use vstd::prelude::*;
use std::marker::PhantomData;
use crate::ecs::entity::Entity;
use crate::ecs::world::World;
use crate::ecs::component::Component;

verus! {

/// Trait for types that can be queried from the world.
pub trait Queryable {
    /// What a query yields for one entity.
    type Item<'b>;

    /// Fetches the item of `entity`, if it has every queried component.
    fn fetch<'b>(world: &'b World, entity: Entity) -> Option<Self::Item<'b>>;
}

/// `items` are what `T::fetch` gives, in increasing order of the entity
/// ids `ids` (all below the world's id bound, which covers the entities
/// created and those given a component), and every other id below
/// it fetched nothing.
pub open spec fn fetched_in_order<'b, T: Queryable>(world: &'b World, ids: Seq<u64>, items: Seq<T::Item<'b>>) -> bool {
    &&& ids.len() == items.len()
    &&& forall|k: int| 0 <= k < ids.len() ==> #[trigger] ids[k] < world.id_bound()
    &&& forall|j: int, k: int| 0 <= j < k < ids.len() ==> ids[j] < ids[k]
    &&& forall|k: int| 0 <= k < ids.len() ==> call_ensures(
        T::fetch,
        (world, Entity(#[trigger] ids[k])),
        Some(items[k]),
    )
    &&& forall|e: u64| e < world.id_bound() && !ids.contains(e) ==> call_ensures(
        T::fetch,
        (world, Entity(e)),
        None,
    )
}

/// Query for iterating over entities with specific components.
pub struct Query<'w, T: Queryable> {
    world: &'w World,
    _marker: PhantomData<T>,
}

impl<'w, T: Queryable + 'w> Query<'w, T> {
    /// The world this query reads.
    pub closed spec fn world(&self) -> World {
        *self.world
    }

    /// Creates a new query.
    pub fn new(world: &'w World) -> (q: Self)
        ensures
            q.world() == *world,
    {
        Self { world, _marker: PhantomData }
    }

    /// The world this query reads, as the reference it holds.
    pub closed spec fn world_ref(&self) -> &'w World {
        self.world
    }

    /// Returns the items of all matching entities (created, or given a
    /// component), in order of entity id:
    /// what `T::fetch` gives for each entity that it matches, and no item
    /// for the entities it does not match.
    pub fn iter(&self) -> (r: Vec<T::Item<'w>>)
        ensures
            r@.len() <= self.world().id_bound(),
            exists|ids: Seq<u64>| #[trigger] fetched_in_order::<T>(self.world_ref(), ids, r@),
    {
        let mut items: Vec<T::Item<'w>> = Vec::new();
        let ghost ids: Seq<u64> = Seq::empty();
        let bound = self.world.entity_id_bound();
        let mut id: u64 = 0;
        while id < bound
            invariant
                id <= bound,
                bound == self.world().id_bound(),
                *self.world_ref() == self.world(),
                items@.len() <= id,
                ids.len() == items@.len(),
                forall|k: int| 0 <= k < ids.len() ==> #[trigger] ids[k] < id,
                forall|j: int, k: int| 0 <= j < k < ids.len() ==> ids[j] < ids[k],
                forall|k: int| 0 <= k < ids.len() ==> call_ensures(
                    T::fetch,
                    (self.world_ref(), Entity(#[trigger] ids[k])),
                    Some(items@[k]),
                ),
                forall|e: u64| e < id && !ids.contains(e) ==> call_ensures(
                    T::fetch,
                    (self.world_ref(), Entity(e)),
                    None,
                ),
            decreases bound - id,
        {
            let fetch = T::fetch;
            let fetched = fetch(self.world, Entity(id));
            assert(call_ensures(T::fetch, (self.world_ref(), Entity(id)), fetched));
            let ghost old_ids = ids;
            match fetched {
                Some(item) => {
                    proof {
                        ids = ids.push(id);
                    }
                    items.push(item);
                },
                None => {},
            }
            proof {
                assert forall|e: u64| e < id + 1 && !ids.contains(e) implies call_ensures(
                    T::fetch,
                    (self.world_ref(), Entity(e)),
                    None,
                ) by {
                    if e < id {
                        if old_ids.contains(e) {
                            let k = choose|k: int| 0 <= k < old_ids.len() && old_ids[k] == e;
                            assert(ids[k] == e);
                        }
                    } else {
                        if fetched is Some {
                            assert(ids[ids.len() - 1] == id);
                        }
                    }
                }
            }
            id += 1;
        }
        assert(fetched_in_order::<T>(self.world_ref(), ids, items@));
        items
    }
}

/// `r` is a possible result of `world.get_component::<T>(entity)`.
pub open spec fn component_read<'b, T: Component>(world: &'b World, entity: Entity, r: Option<&'b T>) -> bool {
    call_ensures(World::get_component::<T>, (world, entity), r)
}

// Implementation for a single immutable reference.
impl<'a, T: Component> Queryable for &'a T {
    type Item<'b> = &'b T;

    /// The component of type `T` of `entity`, as `get_component` reads it.
    fn fetch<'b>(world: &'b World, entity: Entity) -> (r: Option<Self::Item<'b>>)
        ensures
            component_read::<T>(world, entity, r),
    {
        world.get_component::<T>(entity)
    }
}

// Mutable queries need exclusive access to the world, which `fetch` does not
// have, so a mutable query yields nothing.
impl<'a, T: Component> Queryable for &'a mut T {
    type Item<'b> = &'b mut T;

    fn fetch<'b>(_world: &'b World, _entity: Entity) -> (r: Option<Self::Item<'b>>)
        ensures
            r is None,
    {
        None
    }
}

impl<'a, A: Component, B: Component> Queryable for (&'a A, &'a B) {
    type Item<'b> = (&'b A, &'b B);

    /// Both components of `entity`, when it has both: `None` only when one
    /// of the reads gives nothing.
    fn fetch<'b>(world: &'b World, entity: Entity) -> (r: Option<Self::Item<'b>>)
        ensures
            match r {
                Some((a, b)) => component_read::<A>(world, entity, Some(a))
                    && component_read::<B>(world, entity, Some(b)),
                None => component_read::<A>(world, entity, None)
                    || component_read::<B>(world, entity, None),
            },
    {
        let a = world.get_component::<A>(entity)?;
        let b = world.get_component::<B>(entity)?;
        Some((a, b))
    }
}

impl<'a, A: Component, B: Component, C: Component> Queryable for (&'a A, &'a B, &'a C) {
    type Item<'b> = (&'b A, &'b B, &'b C);

    /// The three components of `entity`, when it has all three: `None` only
    /// when one of the reads gives nothing.
    fn fetch<'b>(world: &'b World, entity: Entity) -> (r: Option<Self::Item<'b>>)
        ensures
            match r {
                Some((a, b, c)) => component_read::<A>(world, entity, Some(a))
                    && component_read::<B>(world, entity, Some(b))
                    && component_read::<C>(world, entity, Some(c)),
                None => component_read::<A>(world, entity, None)
                    || component_read::<B>(world, entity, None)
                    || component_read::<C>(world, entity, None),
            },
    {
        let a = world.get_component::<A>(entity)?;
        let b = world.get_component::<B>(entity)?;
        let c = world.get_component::<C>(entity)?;
        Some((a, b, c))
    }
}

impl<'a, A: Component, B: Component, C: Component, D: Component> Queryable for (
    &'a A,
    &'a B,
    &'a C,
    &'a D,
) {
    type Item<'b> = (&'b A, &'b B, &'b C, &'b D);

    /// The four components of `entity`, when it has all four: `None` only
    /// when one of the reads gives nothing.
    fn fetch<'b>(world: &'b World, entity: Entity) -> (r: Option<Self::Item<'b>>)
        ensures
            match r {
                Some((a, b, c, d)) => component_read::<A>(world, entity, Some(a))
                    && component_read::<B>(world, entity, Some(b))
                    && component_read::<C>(world, entity, Some(c))
                    && component_read::<D>(world, entity, Some(d)),
                None => component_read::<A>(world, entity, None)
                    || component_read::<B>(world, entity, None)
                    || component_read::<C>(world, entity, None)
                    || component_read::<D>(world, entity, None),
            },
    {
        let a = world.get_component::<A>(entity)?;
        let b = world.get_component::<B>(entity)?;
        let c = world.get_component::<C>(entity)?;
        let d = world.get_component::<D>(entity)?;
        Some((a, b, c, d))
    }
}

} // verus!
