//! Octree cells holding entity ids.
//!
//! A cell holds up to `capacity` entities; a full leaf splits into eight
//! children, hands its entities to them and places new entities in the first
//! child with room, keeping an entity itself when no child has room.  The
//! geometry of the cells (the type `B`) is the caller's: it says how a cell
//! splits and which cells a query meets.

use vstd::prelude::*;
use vstd::multiset::Multiset;

verus! {

broadcast use vstd::seq_lib::group_to_multiset_ensures;

/// Number of children of a split cell.
pub const OCTANTS: usize = 8;

/// An octree cell with its entities and, once split, its children.
pub struct OctreeNode<B> {
    bounds: B,
    children: Option<Vec<OctreeNode<B>>>,
    entities: Vec<u64>,
    capacity: usize,
}

/// The entities held by the given cells, taken together.
pub open spec fn cells_contents<B: Copy>(cells: Seq<OctreeNode<B>>) -> Multiset<u64>
    decreases cells.len(),
{
    if cells.len() == 0 {
        Multiset::empty()
    } else {
        cells_contents(cells.drop_last()).add(cells.last().own_entities().to_multiset())
    }
}

/// Giving the cell at `i` one more entity `e` gives the cells together one more `e`.
proof fn lemma_cells_contents_insert<B: Copy>(cells: Seq<OctreeNode<B>>, i: int, cell: OctreeNode<B>, e: u64)
    requires
        0 <= i < cells.len(),
        cell.own_entities() == cells[i].own_entities().push(e),
    ensures
        cells_contents(cells.update(i, cell)) == cells_contents(cells).insert(e),
    decreases cells.len(),
{
    let updated = cells.update(i, cell);
    if i == cells.len() - 1 {
        assert(updated.drop_last() =~= cells.drop_last());
        assert(cells_contents(updated) =~= cells_contents(cells).insert(e));
    } else {
        assert(updated.drop_last() =~= cells.drop_last().update(i, cell));
        lemma_cells_contents_insert(cells.drop_last(), i, cell, e);
        assert(cells_contents(updated) =~= cells_contents(cells).insert(e));
    }
}

/// Cells that hold no entity hold nothing together.
proof fn lemma_cells_contents_empty<B: Copy>(cells: Seq<OctreeNode<B>>)
    requires
        forall|i: int| 0 <= i < cells.len() ==> #[trigger] cells[i].own_entities().len() == 0,
    ensures
        cells_contents(cells) == Multiset::<u64>::empty(),
    decreases cells.len(),
{
    if cells.len() > 0 {
        lemma_cells_contents_empty(cells.drop_last());
        assert(cells.last().own_entities() =~= Seq::<u64>::empty());
        assert(cells_contents(cells) =~= Multiset::<u64>::empty());
    }
}

/// What a query with the test `overlaps` finds in the given leaf cells:
/// the entities of each cell that it accepts, cell after cell.
pub open spec fn cells_found<B: Copy, P: Fn(B) -> bool>(cells: Seq<OctreeNode<B>>, overlaps: P) -> Seq<u64>
    decreases cells.len(),
{
    if cells.len() == 0 {
        Seq::empty()
    } else {
        cells_found(cells.drop_last(), overlaps) + if call_ensures(overlaps, (cells.last().cell(),), true) {
            cells.last().own_entities()
        } else {
            Seq::empty()
        }
    }
}

/// A test that accepts every cell finds in leaf cells every entity they hold.
proof fn lemma_cells_found_all<B: Copy, P: Fn(B) -> bool>(cells: Seq<OctreeNode<B>>, overlaps: P)
    requires
        forall|b: B| call_ensures(overlaps, (b,), true),
    ensures
        cells_found(cells, overlaps).to_multiset() == cells_contents(cells),
    decreases cells.len(),
{
    if cells.len() > 0 {
        lemma_cells_found_all(cells.drop_last(), overlaps);
        assert(call_ensures(overlaps, (cells.last().cell(),), true));
        vstd::seq_lib::lemma_multiset_commutative(
            cells_found(cells.drop_last(), overlaps),
            cells.last().own_entities(),
        );
    } else {
        assert(cells_found(cells, overlaps).to_multiset() =~= Multiset::<u64>::empty());
    }
}

/// What is put in is found: a query whose test accepts every cell finds
/// exactly the entities inserted (as a multiset: each as often as it was
/// inserted).
pub proof fn lemma_query_finds_contents<B: Copy, P: Fn(B) -> bool>(node: OctreeNode<B>, overlaps: P)
    requires
        node.wf(),
        forall|b: B| call_ensures(overlaps, (b,), true),
    ensures
        node.found(overlaps).to_multiset() == node.contents(),
{
    assert(call_ensures(overlaps, (node.cell(),), true));
    match node.child_cells() {
        Some(cs) => {
            lemma_cells_found_all(cs, overlaps);
            vstd::seq_lib::lemma_multiset_commutative(node.own_entities(), cells_found(cs, overlaps));
        },
        None => {
            assert(node.found(overlaps) =~= node.own_entities());
            assert(node.contents() =~= node.own_entities().to_multiset());
        },
    }
}

impl<B: Copy> OctreeNode<B> {
    /// The cell's bounds.
    pub closed spec fn cell(&self) -> B {
        self.bounds
    }

    /// How many entities a leaf cell holds before it splits.
    pub closed spec fn cell_capacity(&self) -> usize {
        self.capacity
    }

    /// The entities held by this cell itself, in insertion order.
    pub closed spec fn own_entities(&self) -> Seq<u64> {
        self.entities@
    }

    /// The children, once the cell has split.
    pub closed spec fn child_cells(&self) -> Option<Seq<OctreeNode<B>>> {
        match self.children {
            Some(c) => Some(c@),
            None => None,
        }
    }

    /// A leaf, or a split cell with eight leaf children of the same capacity.
    pub open spec fn wf(&self) -> bool {
        match self.child_cells() {
            None => true,
            Some(cs) => {
                &&& cs.len() == OCTANTS
                &&& forall|i: int| 0 <= i < cs.len() ==> {
                    &&& #[trigger] cs[i].child_cells() is None
                    &&& cs[i].cell_capacity() == self.cell_capacity()
                }
            },
        }
    }

    /// Every entity held in this cell and its children.
    pub open spec fn contents(&self) -> Multiset<u64> {
        self.own_entities().to_multiset().add(
            match self.child_cells() {
                Some(cs) => cells_contents(cs),
                None => Multiset::empty(),
            },
        )
    }

    /// What a query with the test `overlaps` finds: nothing if the test
    /// rejects this cell, else this cell's entities and then those of the
    /// children it accepts, in order.
    pub open spec fn found<P: Fn(B) -> bool>(&self, overlaps: P) -> Seq<u64> {
        if !call_ensures(overlaps, (self.cell(),), true) {
            Seq::empty()
        } else {
            self.own_entities() + match self.child_cells() {
                Some(cs) => cells_found(cs, overlaps),
                None => Seq::empty(),
            }
        }
    }

    /// Depth of the cell: 1 once split (its children are leaves), else 0.
    pub open spec fn height(&self) -> nat {
        if self.child_cells() is Some {
            1
        } else {
            0
        }
    }

    /// Whether the cell holds fewer entities than its capacity.
    pub open spec fn has_room(&self) -> bool {
        self.own_entities().len() < self.cell_capacity()
    }

    /// Rank for the recursion of `insert` and `subdivide`: a full leaf splits,
    /// a split cell hands the entity to a child leaf with room.
    pub open spec fn rank(&self) -> nat {
        if self.child_cells() is Some {
            1
        } else if self.own_entities().len() < self.cell_capacity() {
            0
        } else {
            2
        }
    }

    /// Creates an empty leaf cell.
    pub fn new(bounds: B, capacity: usize) -> (n: Self)
        ensures
            n.wf(),
            n.cell() == bounds,
            n.cell_capacity() == capacity,
            n.child_cells() is None,
            n.own_entities() == Seq::<u64>::empty(),
            n.contents() == Multiset::<u64>::empty(),
    {
        let n = Self { bounds, children: None, entities: Vec::new(), capacity };
        assert(n.contents() =~= Multiset::<u64>::empty());
        n
    }

    /// Whether the cell has not split.
    pub fn is_leaf(&self) -> (r: bool)
        ensures
            r == self.child_cells() is None,
    {
        self.children.is_none()
    }

    /// Splits a full leaf into eight children, the `i`-th with the bounds
    /// that `split` gives for this cell's bounds and `i`, and places the
    /// cell's entities anew.
    fn subdivide<F: Fn(B, usize) -> B>(&mut self, split: &F)
        requires
            old(self).wf(),
            old(self).child_cells() is None,
            old(self).own_entities().len() >= old(self).cell_capacity(),
            forall|b: B, i: usize| i < OCTANTS ==> call_requires(*split, (b, i)),
        ensures
            final(self).wf(),
            final(self).child_cells() is Some,
            final(self).contents() == old(self).contents(),
            final(self).cell() == old(self).cell(),
            final(self).cell_capacity() == old(self).cell_capacity(),
            forall|i: int| 0 <= i < OCTANTS ==> call_ensures(
                *split,
                (old(self).cell(), i as usize),
                #[trigger] final(self).child_cells()->0[i].cell(),
            ),
        decreases 2nat, 0nat,
    {
        let mut children: Vec<OctreeNode<B>> = Vec::new();
        let mut i: usize = 0;
        while i < OCTANTS
            invariant
                i <= OCTANTS,
                children@.len() == i,
                forall|b: B, k: usize| k < OCTANTS ==> call_requires(*split, (b, k)),
                forall|k: int| 0 <= k < i ==> {
                    &&& #[trigger] children@[k].child_cells() is None
                    &&& children@[k].cell_capacity() == self.capacity
                    &&& children@[k].own_entities().len() == 0
                    &&& call_ensures(*split, (self.bounds, k as usize), children@[k].cell())
                },
            decreases OCTANTS - i,
        {
            let child_bounds = split(self.bounds, i);
            children.push(OctreeNode::new(child_bounds, self.capacity));
            i += 1;
        }
        proof {
            assert forall|k: int| 0 <= k < children@.len()
                implies #[trigger] children@[k].own_entities().len() == 0 by {
                assert(children@[k].child_cells() is None);
            }
            lemma_cells_contents_empty(children@);
        }
        let mut entities: Vec<u64> = Vec::new();
        std::mem::swap(&mut entities, &mut self.entities);
        let ghost made = children@;
        self.children = Some(children);
        assert(self.contents() =~= Multiset::<u64>::empty());
        assert forall|k: int| 0 <= k < OCTANTS implies call_ensures(
            *split,
            (old(self).cell(), k as usize),
            #[trigger] self.child_cells()->0[k].cell(),
        ) by {
            assert(made[k].child_cells() is None);
        }
        let n = entities.len();
        let mut j: usize = 0;
        while j < n
            invariant
                j <= n,
                n == entities@.len(),
                entities@ == old(self).own_entities(),
                self.wf(),
                self.child_cells() is Some,
                self.cell() == old(self).cell(),
                self.cell_capacity() == old(self).cell_capacity(),
                self.contents() == entities@.subrange(0, j as int).to_multiset(),
                forall|b: B, k: usize| k < OCTANTS ==> call_requires(*split, (b, k)),
                forall|k: int| 0 <= k < OCTANTS ==> call_ensures(
                    *split,
                    (old(self).cell(), k as usize),
                    #[trigger] self.child_cells()->0[k].cell(),
                ),
            decreases n - j,
        {
            self.insert(entities[j], split);
            assert(entities@.subrange(0, j + 1) =~= entities@.subrange(0, j as int).push(entities@[j as int]));
            j += 1;
        }
        assert(entities@.subrange(0, n as int) =~= entities@);
        assert(old(self).contents() =~= old(self).own_entities().to_multiset());
    }

    /// Places an entity: a leaf with room keeps it; a full leaf splits
    /// first; a split cell gives it to its first child with room, or keeps it
    /// when every child is full.
    pub fn insert<F: Fn(B, usize) -> B>(&mut self, entity: u64, split: &F)
        requires
            old(self).wf(),
            forall|b: B, i: usize| i < OCTANTS ==> call_requires(*split, (b, i)),
        ensures
            final(self).wf(),
            final(self).contents() == old(self).contents().insert(entity),
            final(self).cell() == old(self).cell(),
            final(self).cell_capacity() == old(self).cell_capacity(),
            old(self).rank() == 0 ==> {
                &&& final(self).own_entities() == old(self).own_entities().push(entity)
                &&& final(self).child_cells() is None
            },
            old(self).child_cells() is Some ==> {
                &&& final(self).child_cells() is Some
                &&& forall|i: int| 0 <= i < OCTANTS ==> #[trigger] final(self).child_cells()->0[i].cell()
                    == old(self).child_cells()->0[i].cell()
            },
            old(self).child_cells() is None && final(self).child_cells() is Some ==> forall|i: int|
                0 <= i < OCTANTS ==> call_ensures(
                    *split,
                    (old(self).cell(), i as usize),
                    #[trigger] final(self).child_cells()->0[i].cell(),
                ),
            old(self).child_cells() is Some && (forall|i: int|
                0 <= i < OCTANTS ==> !(#[trigger] old(self).child_cells()->0[i]).has_room()) ==> {
                &&& final(self).own_entities() == old(self).own_entities().push(entity)
                &&& final(self).child_cells() == old(self).child_cells()
            },
            forall|i: int|
                old(self).child_cells() is Some && 0 <= i < OCTANTS
                    && (#[trigger] old(self).child_cells()->0[i]).has_room()
                    && (forall|j: int| 0 <= j < i ==> !(#[trigger] old(self).child_cells()->0[j]).has_room())
                    ==> {
                    &&& final(self).own_entities() == old(self).own_entities()
                    &&& final(self).child_cells()->0[i].own_entities()
                        == old(self).child_cells()->0[i].own_entities().push(entity)
                    &&& forall|j: int| 0 <= j < OCTANTS && j != i
                        ==> #[trigger] final(self).child_cells()->0[j] == old(self).child_cells()->0[j]
                },
        decreases old(self).rank(), 1nat,
    {
        if self.children.is_none() {
            if self.entities.len() < self.capacity {
                self.entities.push(entity);
                return;
            }
            self.subdivide(split);
        }
        let ghost before = *self;
        let mut placed = false;
        let ghost mut at: int = 0;
        let mut kids: Option<Vec<OctreeNode<B>>> = None;
        std::mem::swap(&mut kids, &mut self.children);
        match kids {
            Some(mut children) => {
                let n = children.len();
                let mut i: usize = 0;
                while i < n && !placed
                    invariant
                        i <= n,
                        n == children@.len(),
                        n == OCTANTS,
                        old(self).rank() >= 1,
                        before.wf(),
                        before.child_cells() is Some,
                        forall|b: B, k: usize| k < OCTANTS ==> call_requires(*split, (b, k)),
                        !placed ==> children@ == before.child_cells()->0,
                        placed ==> cells_contents(children@) == cells_contents(before.child_cells()->0).insert(entity),
                        !placed ==> forall|j: int| 0 <= j < i ==> !(#[trigger] before.child_cells()->0[j]).has_room(),
                        placed ==> {
                            &&& 0 <= at < i
                            &&& before.child_cells()->0[at].has_room()
                            &&& forall|j: int| 0 <= j < at ==> !(#[trigger] before.child_cells()->0[j]).has_room()
                            &&& children@[at].own_entities() == before.child_cells()->0[at].own_entities().push(entity)
                            &&& forall|j: int| 0 <= j < n && j != at ==> #[trigger] children@[j] == before.child_cells()->0[j]
                        },
                        forall|k: int| 0 <= k < n ==> {
                            &&& #[trigger] children@[k].child_cells() is None
                            &&& children@[k].cell_capacity() == before.cell_capacity()
                            &&& children@[k].cell() == before.child_cells()->0[k].cell()
                        },
                    decreases n - i,
                {
                    if children[i].entities.len() < children[i].capacity {
                        children[i].insert(entity, split);
                        proof {
                            lemma_cells_contents_insert(before.child_cells()->0, i as int, children@[i as int], entity);
                            assert(children@ == before.child_cells()->0.update(i as int, children@[i as int]));
                        }
                        placed = true;
                        proof {
                            at = i as int;
                        }
                    }
                    i += 1;
                }
                self.children = Some(children);
                assert forall|k: int| 0 <= k < OCTANTS
                    implies #[trigger] self.child_cells()->0[k].cell() == before.child_cells()->0[k].cell() by {
                    assert(children@[k].child_cells() is None);
                }
            },
            None => {},
        }
        if !placed {
            self.entities.push(entity);
        }
        proof {
            assert(self.contents() =~= before.contents().insert(entity));
            if old(self).child_cells() is Some {
                assert(before == *old(self));
                if placed {
                    assert forall|i: int|
                        0 <= i < OCTANTS && (#[trigger] old(self).child_cells()->0[i]).has_room()
                            && (forall|j: int| 0 <= j < i ==> !(#[trigger] old(self).child_cells()->0[j]).has_room())
                            implies i == at by {
                        if i < at {
                        } else if at < i {
                            assert(!old(self).child_cells()->0[at].has_room());
                        }
                    }
                }
            }
        }
    }

    /// Appends to `result` what a query with the test `overlaps` finds
    /// (`found`).
    pub fn query<P: Fn(B) -> bool>(&self, overlaps: &P, result: &mut Vec<u64>)
        requires
            self.wf(),
            forall|b: B| call_requires(*overlaps, (b,)),
            forall|b: B| !(call_ensures(*overlaps, (b,), true) && call_ensures(*overlaps, (b,), false)),
        ensures
            final(result)@ == old(result)@ + self.found(*overlaps),
        decreases self.height(),
    {
        if !overlaps(self.bounds) {
            return;
        }
        let mut k: usize = 0;
        while k < self.entities.len()
            invariant
                k <= self.entities@.len(),
                result@ == old(result)@ + self.entities@.subrange(0, k as int),
            decreases self.entities@.len() - k,
        {
            result.push(self.entities[k]);
            assert(self.entities@.subrange(0, k + 1) =~= self.entities@.subrange(0, k as int).push(self.entities@[k as int]));
            k += 1;
        }
        assert(self.entities@.subrange(0, self.entities@.len() as int) =~= self.entities@);
        match &self.children {
            Some(children) => {
                let n = children.len();
                let mut i: usize = 0;
                while i < n
                    invariant
                        i <= n,
                        n == children@.len(),
                        self.wf(),
                        self.child_cells() == Some(children@),
                        forall|b: B| call_requires(*overlaps, (b,)),
                        forall|b: B| !(call_ensures(*overlaps, (b,), true) && call_ensures(*overlaps, (b,), false)),
                        result@ == old(result)@ + self.own_entities() + cells_found(children@.subrange(0, i as int), *overlaps),
                    decreases n - i,
                {
                    children[i].query(overlaps, result);
                    proof {
                        let pre = children@.subrange(0, i as int);
                        let next = children@.subrange(0, i + 1);
                        assert(next.drop_last() =~= pre);
                        assert(children@[i as int].own_entities() + Seq::<u64>::empty() =~= children@[i as int].own_entities());
                    }
                    i += 1;
                }
                assert(children@.subrange(0, n as int) =~= children@);
            },
            None => {
                assert(self.own_entities() + Seq::<u64>::empty() =~= self.own_entities());
            },
        }
    }
}

} // verus!
