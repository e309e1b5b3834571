use rustyracer_engine::optimization::octree::OctreeNode;

/// Cells named by numbers: the root is 0 and child `i` of cell `c` is `8c + i + 1`.
fn split(cell: u32, i: usize) -> u32 {
    cell * 8 + i as u32 + 1
}

fn query_all(node: &OctreeNode<u32>) -> Vec<u64> {
    let mut out = Vec::new();
    node.query(&|_cell: u32| true, &mut out);
    out
}

#[test]
fn octree_leaf_keeps_entities_up_to_capacity() {
    let mut root = OctreeNode::new(0u32, 2);
    root.insert(1, &split);
    root.insert(2, &split);
    assert!(root.is_leaf());
    assert_eq!(query_all(&root), vec![1, 2]);
}

#[test]
fn octree_full_leaf_splits_and_places_in_first_child_with_room() {
    let mut root = OctreeNode::new(0u32, 2);
    for e in [1u64, 2, 3, 4, 5] {
        root.insert(e, &split);
    }
    assert!(!root.is_leaf());
    // 1 and 2 moved to child 0 (cell 1), 3 and 4 went to child 1 (cell 2), 5 to child 2 (cell 3).
    assert_eq!(query_all(&root), vec![1, 2, 3, 4, 5]);
    let mut skip_first = Vec::new();
    root.query(&|cell: u32| cell != 1, &mut skip_first);
    assert_eq!(skip_first, vec![3, 4, 5]);
    let mut only_third = Vec::new();
    root.query(&|cell: u32| cell == 0 || cell == 3, &mut only_third);
    assert_eq!(only_third, vec![5]);
}

#[test]
fn octree_query_that_misses_the_root_finds_nothing() {
    let mut root = OctreeNode::new(0u32, 1);
    root.insert(7, &split);
    root.insert(8, &split);
    let mut out = vec![99u64];
    root.query(&|cell: u32| cell != 0, &mut out);
    assert_eq!(out, vec![99]);
}

#[test]
fn octree_keeps_entities_at_the_split_cell_when_children_are_full() {
    let mut root = OctreeNode::new(0u32, 0);
    root.insert(5, &split);
    root.insert(6, &split);
    assert!(!root.is_leaf());
    let mut out = Vec::new();
    root.query(&|cell: u32| cell == 0, &mut out);
    assert_eq!(out, vec![5, 6]);
}

#[test]
fn octree_reinserted_entity_is_held_twice() {
    let mut root = OctreeNode::new(0u32, 4);
    root.insert(3, &split);
    root.insert(3, &split);
    assert_eq!(query_all(&root), vec![3, 3]);
}
