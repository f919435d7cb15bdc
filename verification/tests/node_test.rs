use binary_tree_ds::ident::{ID_FORMAT_MASK, ID_FORMAT_RANDOM};
use binary_tree_ds::node::FULL_NODE_MESSAGE;
use binary_tree_ds::{add, Tree, TreeNode, TreeNodeProperties, TreeNodeRef};
use std::rc::Rc;

fn leaf(value: i32) -> TreeNodeRef<i32> {
    TreeNode::new_rc(value, None, None)
}

fn values(nodes: &[TreeNodeRef<i32>]) -> Vec<i32> {
    nodes.iter().map(|n| n.value).collect()
}

#[test]
fn add_sums() {
    assert_eq!(add(2, 3), 5);
    assert_eq!(add(0, 0), 0);
    assert_eq!(add(u64::MAX - 1, 1), u64::MAX);
}

#[test]
fn new_keeps_value_and_children() {
    let left = leaf(2);
    let right = leaf(3);
    let node = TreeNode::new(1, Some(left.clone()), Some(right.clone()));
    assert_eq!(node.value, 1);
    assert!(Rc::ptr_eq(node.left.as_ref().unwrap(), &left));
    assert!(Rc::ptr_eq(node.right.as_ref().unwrap(), &right));
}

#[test]
fn identifiers_are_random_uuids() {
    let a = TreeNode::new(1, None, None);
    let b = TreeNode::new_rc(1, None, None);
    assert_eq!(a.get_id() & ID_FORMAT_MASK, ID_FORMAT_RANDOM);
    assert_eq!(b.get_id() & ID_FORMAT_MASK, ID_FORMAT_RANDOM);
    assert_ne!(a.get_id(), b.get_id());
    assert_eq!(a.get_id(), a.id);
}

#[test]
fn cmp_id_tells_nodes_apart() {
    let a = TreeNode::new(1, None, None);
    let b = TreeNode::new(1, None, None);
    assert!(a.cmp_id(a.get_id()));
    assert!(!a.cmp_id(b.get_id()));
}

#[test]
fn clone_keeps_identity_and_shares_children() {
    let child = leaf(2);
    let node = TreeNode::new(1, Some(child.clone()), None);
    let copy = node.clone();
    assert_eq!(copy.get_id(), node.get_id());
    assert_eq!(copy.value, 1);
    assert!(Rc::ptr_eq(copy.left.as_ref().unwrap(), &child));
    assert!(copy.right.is_none());
}

#[test]
fn equality_ignores_identifiers() {
    let a = TreeNode::new(1, Some(leaf(2)), Some(leaf(3)));
    let b = TreeNode::new(1, Some(leaf(2)), Some(leaf(3)));
    let other_value = TreeNode::new(1, Some(leaf(2)), Some(leaf(4)));
    let other_shape = TreeNode::new(1, Some(leaf(2)), None);
    let mirrored = TreeNode::new(1, Some(leaf(3)), Some(leaf(2)));
    assert_ne!(a.get_id(), b.get_id());
    assert_eq!(a, b);
    assert_ne!(a, other_value);
    assert_ne!(a, other_shape);
    assert_ne!(a, mirrored);
    assert_eq!(Tree::new(Rc::new(a)), Tree::new(Rc::new(b)));
}

#[test]
fn add_left_and_right_replace_the_child() {
    let mut root = TreeNode::new(10, None, None);
    let id = root.get_id();
    root.add_left(20);
    root.add_right(30);
    root.add_left(21);
    assert_eq!(values(&root.pre_order_vec()), vec![10, 21, 30]);
    root.add_right(31);
    assert_eq!(values(&root.pre_order_vec()), vec![10, 21, 31]);
    assert_eq!(root.get_id(), id);
    assert!(root.left.as_ref().unwrap().is_leaf());
    assert!(root.right.as_ref().unwrap().is_leaf());
}

#[test]
fn set_left_and_right_hang_whole_subtrees() {
    let mut root = TreeNode::new(1, None, None);
    let sub = TreeNode::new(2, Some(leaf(4)), Some(leaf(5)));
    let sub_id = sub.get_id();
    root.set_left(sub);
    root.set_right(TreeNode::new(3, None, None));
    assert_eq!(values(&root.pre_order_vec()), vec![1, 2, 4, 5, 3]);
    assert_eq!(root.left.as_ref().unwrap().get_id(), sub_id);
    root.set_left(TreeNode::new(9, None, None));
    assert_eq!(values(&root.pre_order_vec()), vec![1, 9, 3]);
}

#[test]
fn add_leaf_fills_left_then_right_then_fails() {
    let mut root = TreeNode::new(10, None, None);
    assert_eq!(root.add_leaf(20), Ok(()));
    assert_eq!(root.left.as_ref().unwrap().value, 20);
    assert!(root.right.is_none());

    assert_eq!(root.add_leaf(30), Ok(()));
    assert_eq!(root.left.as_ref().unwrap().value, 20);
    assert_eq!(root.right.as_ref().unwrap().value, 30);

    let left_id = root.left.as_ref().unwrap().get_id();
    let right_id = root.right.as_ref().unwrap().get_id();
    assert_eq!(root.add_leaf(100), Err(FULL_NODE_MESSAGE.to_string()));
    assert_eq!(FULL_NODE_MESSAGE, "Attempted to add a leaf to a full node");
    assert_eq!(root.left.as_ref().unwrap().get_id(), left_id);
    assert_eq!(root.right.as_ref().unwrap().get_id(), right_id);
    assert_eq!(values(&root.pre_order_vec()), vec![10, 20, 30]);
}

#[test]
fn add_leaf_takes_the_right_place_when_only_the_left_is_taken() {
    let mut root = TreeNode::new(1, Some(leaf(2)), None);
    assert_eq!(root.add_leaf(3), Ok(()));
    assert_eq!(values(&root.pre_order_vec()), vec![1, 2, 3]);
}

#[test]
fn add_leaf_takes_the_left_place_when_only_the_right_is_taken() {
    let mut root = TreeNode::new(1, None, Some(leaf(3)));
    assert_eq!(root.add_leaf(2), Ok(()));
    assert_eq!(values(&root.pre_order_vec()), vec![1, 2, 3]);
    assert!(root.add_leaf(4).is_err());
}

#[test]
fn is_leaf_and_count_children() {
    let none = TreeNode::new(1, None, None);
    let left_only = TreeNode::new(1, Some(leaf(2)), None);
    let right_only = TreeNode::new(1, None, Some(leaf(3)));
    let both = TreeNode::new(1, Some(leaf(2)), Some(leaf(3)));
    assert!(none.is_leaf());
    assert!(!left_only.is_leaf());
    assert!(!right_only.is_leaf());
    assert!(!both.is_leaf());
    assert_eq!(none.count_children(), 0);
    assert_eq!(left_only.count_children(), 1);
    assert_eq!(right_only.count_children(), 1);
    assert_eq!(both.count_children(), 2);
}

#[test]
fn count_counts_every_node() {
    assert_eq!(TreeNode::new(1, None, None).count(), 1);
    let node5 = TreeNode::new_rc(5, Some(leaf(7)), None);
    let node2 = TreeNode::new_rc(2, Some(leaf(4)), Some(node5));
    let node3 = TreeNode::new_rc(3, None, Some(TreeNode::new_rc(6, None, Some(leaf(8)))));
    let root = TreeNode::new(1, Some(node2), Some(node3));
    assert_eq!(root.pre_order_vec().len(), 8);
    assert_eq!(root.count(), 8);
}

#[test]
fn preorder_goes_down_the_left_before_the_right() {
    let node5 = TreeNode::new_rc(5, Some(leaf(7)), None);
    let node2 = TreeNode::new_rc(2, Some(leaf(4)), Some(node5));
    let node3 = TreeNode::new_rc(3, None, Some(TreeNode::new_rc(6, None, Some(leaf(8)))));
    let root = TreeNode::new(1, Some(node2), Some(node3));
    assert_eq!(values(&root.pre_order_vec()), vec![1, 2, 4, 5, 7, 3, 6, 8]);
    assert_eq!(values(&root.pre_order_vec()), vec![1, 2, 4, 5, 7, 3, 6, 8]);
}

#[test]
fn preorder_of_a_single_node() {
    let root = TreeNode::new(1, None, None);
    let nodes = root.pre_order_vec();
    assert_eq!(values(&nodes), vec![1]);
    assert_eq!(nodes[0].get_id(), root.get_id());
}

#[test]
fn preorder_hands_out_the_nodes_of_the_tree() {
    let left = leaf(2);
    let right = leaf(3);
    let root = TreeNode::new(1, Some(left.clone()), Some(right.clone()));
    let nodes = root.pre_order_vec();
    assert_eq!(nodes[0].get_id(), root.get_id());
    assert!(Rc::ptr_eq(&nodes[1], &left));
    assert!(Rc::ptr_eq(&nodes[2], &right));
}

#[test]
fn a_handle_hung_twice_is_visited_twice() {
    let shared = TreeNode::new_rc(2, Some(leaf(4)), None);
    let root = TreeNode::new(1, Some(shared.clone()), Some(shared.clone()));
    assert_eq!(values(&root.pre_order_vec()), vec![1, 2, 4, 2, 4]);
    assert_eq!(root.clone().count(), 5);
    assert_eq!(TreeNode::depth(&root, &shared.get_id()), 1);
}

#[test]
fn depth_of_an_absent_node_is_minus_one() {
    let root = TreeNode::new(1, Some(leaf(2)), Some(leaf(3)));
    let stranger = TreeNode::new(2, None, None);
    assert_eq!(TreeNode::depth(&root, &stranger.get_id()), -1);
    assert_eq!(TreeNode::depth(&stranger, &root.get_id()), -1);
    assert_eq!(TreeNode::depth(&stranger, &stranger.get_id()), 0);
}

#[test]
fn depth_is_counted_from_the_node_asked() {
    let node7 = leaf(7);
    let node5 = TreeNode::new_rc(5, Some(node7.clone()), None);
    let node2 = TreeNode::new_rc(2, Some(leaf(4)), Some(node5.clone()));
    let root = TreeNode::new(1, Some(node2.clone()), None);
    assert_eq!(TreeNode::depth(&root, &node7.get_id()), 3);
    assert_eq!(TreeNode::depth(&node2, &node7.get_id()), 2);
    assert_eq!(TreeNode::depth(&node5, &node7.get_id()), 1);
    assert_eq!(TreeNode::depth(&node7, &node7.get_id()), 0);
    assert_eq!(TreeNode::depth(&node5, &node2.get_id()), -1);
}

#[test]
fn get_by_id_on_a_handle_returns_the_very_node() {
    let node4 = leaf(4);
    let node5 = leaf(5);
    let node2 = TreeNode::new_rc(2, Some(node4.clone()), Some(node5.clone()));
    let node3 = leaf(3);
    let root = TreeNode::new_rc(1, Some(node2.clone()), Some(node3.clone()));

    for node in [&root, &node2, &node3, &node4, &node5] {
        let found = root.get_by_id(node.get_id()).unwrap();
        assert!(Rc::ptr_eq(&found, node));
        assert_eq!(found.get_id(), node.get_id());
    }
    assert!(Rc::ptr_eq(&node2.get_by_id(node5.get_id()).unwrap(), &node5));
    assert!(node2.get_by_id(node3.get_id()).is_none());
    assert!(node2.get_by_id(root.get_id()).is_none());
    assert!(root.get_by_id(leaf(4).get_id()).is_none());
}

#[test]
fn get_by_id_finds_the_first_of_two_nodes_with_one_identifier() {
    let first = TreeNode::new(7, None, None);
    let twin = first.clone();
    let mut changed = twin.clone();
    changed.value = 8;
    let root = TreeNode::new_rc(
        1,
        Some(TreeNode::new_rc(2, None, Some(Rc::new(changed)))),
        Some(Rc::new(first)),
    );
    let found = root.get_by_id(twin.get_id()).unwrap();
    assert_eq!(found.value, 8);
    assert_eq!(TreeNode::depth(&root, &twin.get_id()), 2);
}

#[test]
fn depth_reports_the_first_place_found_not_the_shallowest() {
    // The shared node hangs two edges down on the left and one edge down on the right.
    let shared = leaf(9);
    let left = TreeNode::new_rc(2, Some(shared.clone()), None);
    let root = TreeNode::new(1, Some(left), Some(shared.clone()));
    assert_eq!(TreeNode::depth(&root, &shared.get_id()), 2);

    let mirrored = TreeNode::new(
        1,
        Some(shared.clone()),
        Some(TreeNode::new_rc(2, Some(shared.clone()), None)),
    );
    assert_eq!(TreeNode::depth(&mirrored, &shared.get_id()), 1);
}
