use rtt::util::vec_slist::EmptyRandomTree;

#[test]
fn root_only_path() {
    let tree = EmptyRandomTree::new().add_root(7u32);
    let root = tree.root();
    assert_eq!(*tree.get_state(&root), 7);
    assert_eq!(tree.len(), 1);
    assert_eq!(tree.into_path(root), vec![7]);
}

#[test]
fn expand_round_trip() {
    // The path of the frontier is exactly the states handed to expand, in
    // insertion order, after the root.
    let mut tree = EmptyRandomTree::new().add_root(0u32);
    let mut node = tree.root();
    for s in [10u32, 20, 30, 40] {
        node = tree.expand(node, s);
    }
    assert_eq!(tree.into_path(node), vec![0, 10, 20, 30, 40]);
}

#[test]
fn expand_chain_round_trip() {
    let mut tree = EmptyRandomTree::new().add_root(1u32);
    let root = tree.root();
    let frontier = tree.expand_chain(root, vec![2, 3, 4]);
    assert_eq!(tree.len(), 4);
    assert_eq!(tree.into_path(frontier), vec![1, 2, 3, 4]);
}

#[test]
fn branching_paths() {
    // Two branches hanging off the same parent keep separate root-first
    // paths.
    let mut tree = EmptyRandomTree::new().add_root(0u32);
    let root = tree.root();
    let a = tree.expand(root, 1);
    let b = tree.expand(root, 2);
    let a2 = tree.expand(a, 11);
    assert_eq!(tree.path_iter(&a2), vec![&0, &1, &11]);
    assert_eq!(tree.path_iter(&b), vec![&0, &2]);
}

#[test]
fn path_iter_matches_into_path() {
    // The borrowing variant leaves the tree unchanged, repeated calls give
    // identical results, and the sequence equals, element for element, what
    // the consuming variant yields on the same tree.
    let mut tree = EmptyRandomTree::new().add_root(4u32);
    let mut node = tree.root();
    for s in [8u32, 15, 16, 23] {
        node = tree.expand(node, s);
    }
    let first: Vec<u32> = tree.path_iter(&node).into_iter().copied().collect();
    let second: Vec<u32> = tree.path_iter(&node).into_iter().copied().collect();
    assert_eq!(first, second);
    assert_eq!(tree.len(), 5);
    assert_eq!(first, tree.into_path(node));
}

#[test]
fn node_refs_never_reused() {
    // Every reference handed out within one run is distinct from all the
    // earlier ones.
    let mut tree = EmptyRandomTree::new().add_root(5u32);
    let mut refs = vec![tree.root()];
    let mut node = tree.root();
    for s in 0..6u32 {
        node = tree.expand(node, s);
        refs.push(node);
    }
    for i in 0..refs.len() {
        for j in 0..refs.len() {
            if i != j {
                assert_ne!(refs[i], refs[j]);
            }
        }
    }
}

#[test]
fn degenerate_zero_length_edge_is_legal() {
    // An expansion whose state equals its parent's state is accepted.
    let mut tree = EmptyRandomTree::new().add_root(9u32);
    let root = tree.root();
    let child = tree.expand(root, 9);
    assert_ne!(root, child);
    assert_eq!(tree.into_path(child), vec![9, 9]);
}

#[test]
fn states_enumeration_in_insertion_order() {
    let mut tree = EmptyRandomTree::new().add_root(100u32);
    let root = tree.root();
    let a = tree.expand(root, 200);
    let _b = tree.expand(a, 300);
    let en = tree.states();
    assert_eq!(en.root.0, root);
    assert_eq!(*en.root.1, 100);
    let mut children = en.children;
    let first = children.next().unwrap();
    assert_eq!(first.0, a);
    assert_eq!(*first.1, 200);
    let second = children.next().unwrap();
    assert_eq!(*second.1, 300);
    assert!(children.next().is_none());
}

#[test]
fn get_state_reads_each_node() {
    let mut tree = EmptyRandomTree::new().add_root(1u32);
    let root = tree.root();
    let a = tree.expand(root, 2);
    let b = tree.expand(a, 3);
    assert_eq!(*tree.get_state(&root), 1);
    assert_eq!(*tree.get_state(&a), 2);
    assert_eq!(*tree.get_state(&b), 3);
    assert!(tree.contains_ref(&b));
}
