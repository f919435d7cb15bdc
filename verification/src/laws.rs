//! What holds of the tree model: how lookup, depth and parent relate to the preorder.

use crate::ident::NodeId;
use crate::node::{TreeNode, TreeNodeRef};
use crate::tree::width_bound;
use std::rc::Rc;
use vstd::arithmetic::power2::{
    lemma2_to64, lemma_pow2_strictly_increases, lemma_pow2_unfold, pow2,
};
use vstd::prelude::*;

verus! {

/// The preorder lists every node of the subtree: it is as long as the subtree is large, and
/// it starts with the root.
pub proof fn law_preorder_len<T: Copy>(node: &TreeNode<T>)
    ensures
        node.preorder().len() == node.size(),
        node.preorder().len() >= 1,
        *node.preorder()[0] == *node,
    decreases node,
{
    if let Some(l) = node.left {
        law_preorder_len(&*l);
    }
    if let Some(r) = node.right {
        law_preorder_len(&*r);
    }
}

/// A search finds the first node in preorder that is wanted, and finds nothing only if no
/// node is.  The position returned is that of the node found, or the length of the preorder
/// if there is none.
pub proof fn law_first_where<T: Copy>(
    node: &TreeNode<T>,
    wanted: spec_fn(TreeNode<T>) -> bool,
) -> (at: int)
    ensures
        0 <= at <= node.preorder().len(),
        forall|j: int| 0 <= j < at ==> !wanted(*#[trigger] node.preorder()[j]),
        at < node.preorder().len() ==> wanted(*node.preorder()[at]) && node.first_where(wanted)
            == Some(node.preorder()[at]),
        at == node.preorder().len() ==> node.first_where(wanted) is None,
    decreases node,
{
    let pre = node.preorder();
    let in_left: Seq<TreeNodeRef<T>> = match node.left {
        Some(l) => l.preorder(),
        None => Seq::empty(),
    };
    let in_right: Seq<TreeNodeRef<T>> = match node.right {
        Some(r) => r.preorder(),
        None => Seq::empty(),
    };
    assert(pre == seq![Rc::new(*node)] + in_left + in_right);
    let at_left: int = match node.left {
        Some(l) => law_first_where(&*l, wanted),
        None => 0,
    };
    let at_right: int = match node.right {
        Some(r) => law_first_where(&*r, wanted),
        None => 0,
    };
    let at = if wanted(*node) {
        0
    } else if at_left < in_left.len() {
        1 + at_left
    } else {
        1 + in_left.len() + at_right
    };
    assert forall|j: int| 0 <= j < at implies !wanted(*#[trigger] pre[j]) by {
        if j == 0 {
        } else if j < 1 + in_left.len() {
            assert(pre[j] == in_left[j - 1]);
        } else {
            assert(pre[j] == in_right[j - 1 - in_left.len()]);
        }
    }
    if at < pre.len() {
        if wanted(*node) {
        } else if at_left < in_left.len() {
            assert(pre[at] == in_left[at_left]);
        } else {
            assert(pre[at] == in_right[at_right]);
        }
    }
    at
}

/// Lookup by identifier finds a node exactly when some node of the subtree carries the
/// identifier; the node found carries it, stands in the preorder, and no node before it
/// carries it.
pub proof fn law_find<T: Copy>(node: &TreeNode<T>, id: NodeId)
    ensures
        node.find(id) is Some <==> node.has_id(id),
        node.find(id) matches Some(found) ==> found.id == id && node.preorder().contains(found),
        node.find(id) matches Some(found) ==> exists|at: int|
            {
                &&& 0 <= at < node.preorder().len()
                &&& #[trigger] node.preorder()[at] == found
                &&& forall|j: int| 0 <= j < at ==> (#[trigger] node.preorder()[j]).id != id
            },
{
    let at = law_first_where(node, |n: TreeNode<T>| n.id == id);
    if at < node.preorder().len() {
        assert(node.preorder()[at].id == id);
    }
}

/// The parent search finds a node exactly when some node of the subtree has a child that
/// carries the identifier; the node found has such a child, stands in the preorder, and no
/// node before it has one.
pub proof fn law_parent_of<T: Copy>(node: &TreeNode<T>, id: NodeId)
    ensures
        node.parent_of(id) is Some <==> node.has_parent_of(id),
        node.parent_of(id) matches Some(parent) ==> parent.has_child(id)
            && node.preorder().contains(parent),
        node.parent_of(id) matches Some(parent) ==> exists|at: int|
            {
                &&& 0 <= at < node.preorder().len()
                &&& #[trigger] node.preorder()[at] == parent
                &&& forall|j: int| 0 <= j < at ==> !(#[trigger] node.preorder()[j]).has_child(id)
            },
{
    let at = law_first_where(node, |n: TreeNode<T>| n.has_child(id));
    if at < node.preorder().len() {
        assert(node.preorder()[at].has_child(id));
    }
}

/// The depth search and the lookup agree on which identifiers the subtree holds: the depth
/// is -1 when no node carries the identifier, and lies between 0 and the height of the
/// subtree when one does.
pub proof fn law_depth_of<T: Copy>(node: &TreeNode<T>, id: NodeId)
    ensures
        node.depth_of(id) >= 0 <==> node.has_id(id),
        node.depth_of(id) >= 0 <==> node.find(id) is Some,
        !node.has_id(id) ==> node.depth_of(id) == -1,
        node.depth_of(id) <= node.height(),
        node.depth_of(id) == 0 <==> node.id == id,
    decreases node,
{
    if let Some(l) = node.left {
        law_depth_of(&*l, id);
    }
    if let Some(r) = node.right {
        law_depth_of(&*r, id);
    }
    law_find(node, id);
}

/// The greatest depth over any collection of nodes lies between 0 and the height of the
/// subtree, and no node of the collection is reported deeper.
pub proof fn law_deepest_among<T: Copy>(node: &TreeNode<T>, nodes: Seq<TreeNodeRef<T>>)
    ensures
        0 <= node.deepest_among(nodes) <= node.height(),
        forall|i: int|
            0 <= i < nodes.len() ==> node.depth_of((#[trigger] nodes[i]).id) <= node.deepest_among(
                nodes,
            ),
        node.deepest_among(nodes) == 0 || exists|i: int|
            0 <= i < nodes.len() && node.depth_of((#[trigger] nodes[i]).id) == node.deepest_among(
                nodes,
            ),
    decreases nodes.len(),
{
    if nodes.len() > 0 {
        let front = nodes.drop_last();
        law_deepest_among(node, front);
        law_depth_of(node, nodes.last().id);
        assert forall|i: int| 0 <= i < nodes.len() implies node.depth_of((#[trigger] nodes[i]).id)
            <= node.deepest_among(nodes) by {
            if i < nodes.len() - 1 {
                assert(nodes[i] == front[i]);
            }
        }
        if node.deepest_among(nodes) != 0 {
            if node.deepest_among(front) < node.depth_of(nodes.last().id) {
                assert(node.depth_of(nodes[nodes.len() - 1].id) == node.deepest_among(nodes));
            } else {
                let i = choose|i: int|
                    0 <= i < front.len() && node.depth_of((#[trigger] front[i]).id)
                        == node.deepest_among(front);
                assert(nodes[i] == front[i]);
            }
        }
    }
}

/// The greatest depth of a tree is the depth reported for one of its nodes, and no node is
/// reported deeper; it lies between 0 and the height of the tree.
pub proof fn law_deepest<T: Copy>(node: &TreeNode<T>)
    ensures
        0 <= node.deepest() <= node.height(),
        forall|i: int|
            0 <= i < node.preorder().len() ==> node.depth_of((#[trigger] node.preorder()[i]).id)
                <= node.deepest(),
        exists|i: int|
            0 <= i < node.preorder().len() && node.depth_of((#[trigger] node.preorder()[i]).id)
                == node.deepest(),
{
    law_deepest_among(node, node.preorder());
    law_preorder_len(node);
    if node.deepest() == 0 {
        assert(node.depth_of(node.preorder()[0].id) == 0);
    }
}

/// In a tree whose places all carry different identifiers, some node is reported as deep as
/// the tree is high.  The identifier returned is that of such a node.
pub proof fn law_height_is_reached<T: Copy>(node: &TreeNode<T>) -> (id: NodeId)
    requires
        node.distinct_ids(),
    ensures
        node.has_id(id),
        node.depth_of(id) == node.height(),
    decreases node,
{
    let pre = node.preorder();
    let in_left: Seq<TreeNodeRef<T>> = match node.left {
        Some(l) => l.preorder(),
        None => Seq::empty(),
    };
    let in_right: Seq<TreeNodeRef<T>> = match node.right {
        Some(r) => r.preorder(),
        None => Seq::empty(),
    };
    assert(pre == seq![Rc::new(*node)] + in_left + in_right);
    assert(pre[0].id == node.id);
    assert forall|k: int| 0 <= k < in_left.len() implies pre[1 + k] == #[trigger] in_left[k] by {}
    assert forall|k: int| 0 <= k < in_right.len() implies pre[1 + in_left.len() + k]
        == #[trigger] in_right[k] by {}
    let left_is_taller = match (node.left, node.right) {
        (Some(l), Some(r)) => l.height() >= r.height(),
        (Some(l), None) => true,
        _ => false,
    };
    if node.left is None && node.right is None {
        assert(node.has_id(node.id));
        node.id
    } else if left_is_taller {
        let l = node.left.unwrap();
        assert(l.distinct_ids()) by {
            assert forall|i: int, j: int| 0 <= i < j < in_left.len() implies (
            #[trigger] in_left[i]).id != (#[trigger] in_left[j]).id by {
                assert(pre[1 + i] == in_left[i] && pre[1 + j] == in_left[j]);
            }
        }
        let id = law_height_is_reached(&*l);
        let k = choose|k: int| 0 <= k < in_left.len() && (#[trigger] in_left[k]).id == id;
        assert(pre[1 + k].id == id);
        assert(node.has_id(id));
        id
    } else {
        let r = node.right.unwrap();
        assert(r.distinct_ids()) by {
            assert forall|i: int, j: int| 0 <= i < j < in_right.len() implies (
            #[trigger] in_right[i]).id != (#[trigger] in_right[j]).id by {
                assert(pre[1 + in_left.len() + i] == in_right[i] && pre[1 + in_left.len() + j]
                    == in_right[j]);
            }
        }
        let id = law_height_is_reached(&*r);
        let k = choose|k: int| 0 <= k < in_right.len() && (#[trigger] in_right[k]).id == id;
        assert(pre[1 + in_left.len() + k].id == id);
        assert(node.has_id(id));
        if let Some(l) = node.left {
            law_depth_of(&*l, id);
            if l.has_id(id) {
                let m = choose|m: int| 0 <= m < in_left.len() && (#[trigger] in_left[m]).id == id;
                assert(pre[1 + m].id == id);
                assert(false);
            }
        }
        id
    }
}

/// In a tree whose places all carry different identifiers, the greatest depth is the height
/// of the tree.
pub proof fn law_deepest_is_height<T: Copy>(node: &TreeNode<T>)
    requires
        node.distinct_ids(),
    ensures
        node.deepest() == node.height(),
{
    let id = law_height_is_reached(node);
    law_deepest(node);
    let i = choose|i: int|
        0 <= i < node.preorder().len() && (#[trigger] node.preorder()[i]).id == id;
    assert(node.depth_of(node.preorder()[i].id) <= node.deepest());
}

/// The children of two runs of nodes put together are the children of the first run followed
/// by those of the second.
pub proof fn law_children_of_concat<T: Copy>(
    front: Seq<TreeNodeRef<T>>,
    back: Seq<TreeNodeRef<T>>,
)
    ensures
        TreeNode::children_of(front + back) == TreeNode::children_of(front) + TreeNode::children_of(
            back,
        ),
    decreases back.len(),
{
    if back.len() == 0 {
        assert(front + back == front);
    } else {
        assert((front + back).drop_last() == front + back.drop_last());
        law_children_of_concat(front, back.drop_last());
    }
}

/// Each level of a tree holds the children of the level above it.
pub proof fn law_level_step<T: Copy>(node: &TreeNode<T>, depth: nat)
    ensures
        node.level(depth + 1) == TreeNode::children_of(node.level(depth)),
    decreases depth,
{
    let below_left: Seq<TreeNodeRef<T>> = match node.left {
        Some(l) => l.level(depth),
        None => Seq::empty(),
    };
    let below_right: Seq<TreeNodeRef<T>> = match node.right {
        Some(r) => r.level(depth),
        None => Seq::empty(),
    };
    assert(node.level(depth + 1) == below_left + below_right);
    if depth == 0 {
        let only = seq![Rc::new(*node)];
        assert(only.drop_last() == Seq::<TreeNodeRef<T>>::empty());
        assert(TreeNode::children_of(only) == node.children()) by {
            assert(TreeNode::children_of(only.drop_last()).len() == 0);
        }
    } else {
        let up = (depth - 1) as nat;
        let left: Seq<TreeNodeRef<T>> = match node.left {
            Some(l) => l.level(up),
            None => Seq::empty(),
        };
        let right: Seq<TreeNodeRef<T>> = match node.right {
            Some(r) => r.level(up),
            None => Seq::empty(),
        };
        if let Some(l) = node.left {
            law_level_step(&*l, up);
        }
        if let Some(r) = node.right {
            law_level_step(&*r, up);
        }
        assert(node.level(depth) == left + right);
        law_children_of_concat(left, right);
    }
}

/// A tree has nodes on every level down to its height and on none below, and a level `d`
/// holds at most `2^d` nodes.
pub proof fn law_level_len<T: Copy>(node: &TreeNode<T>, depth: nat)
    ensures
        node.level(depth).len() > 0 <==> depth <= node.height(),
        node.level(depth).len() <= pow2(depth),
    decreases depth,
{
    if depth == 0 {
        lemma2_to64();
    } else {
        let up = (depth - 1) as nat;
        if let Some(l) = node.left {
            law_level_len(&*l, up);
        }
        if let Some(r) = node.right {
            law_level_len(&*r, up);
        }
        lemma_pow2_unfold(depth);
    }
}

/// The width of a tree is the number of nodes on one of its levels, and no level holds more;
/// it is at least 1 and at most two to the power of the height.
pub proof fn law_widest<T: Copy>(node: &TreeNode<T>)
    ensures
        1 <= node.widest() <= pow2(node.height()),
        forall|depth: nat| (#[trigger] node.level(depth)).len() <= node.widest(),
        exists|depth: nat|
            depth <= node.height() && (#[trigger] node.level(depth)).len() == node.widest(),
{
    law_widest_upto(node, node.height());
    assert forall|depth: nat| (#[trigger] node.level(depth)).len() <= node.widest() by {
        law_level_len(node, depth);
    }
}

/// The greatest width down to a depth is the number of nodes on one of the levels down to
/// that depth, and none of them holds more.
pub proof fn law_widest_upto<T: Copy>(node: &TreeNode<T>, depth: nat)
    ensures
        1 <= node.widest_upto(depth) <= pow2(depth),
        forall|d: nat| d <= depth ==> (#[trigger] node.level(d)).len() <= node.widest_upto(depth),
        exists|d: nat| d <= depth && (#[trigger] node.level(d)).len() == node.widest_upto(depth),
    decreases depth,
{
    law_level_len(node, depth);
    if depth == 0 {
        assert(node.level(0).len() == node.widest_upto(0));
    } else {
        let up = (depth - 1) as nat;
        law_widest_upto(node, up);
        lemma_pow2_strictly_increases(up, depth);
        if node.widest_upto(up) < node.level(depth).len() {
            assert(node.level(depth).len() == node.widest_upto(depth));
        } else {
            let d = choose|d: nat|
                d <= up && (#[trigger] node.level(d)).len() == node.widest_upto(up);
            assert(node.level(d).len() == node.widest_upto(depth));
        }
    }
}

/// In a tree whose places all carry different identifiers, the width stays within the
/// bound that goes with the greatest depth.
pub proof fn law_width_within_bound<T: Copy>(node: &TreeNode<T>)
    requires
        node.distinct_ids(),
    ensures
        node.widest() <= width_bound(node.deepest()),
{
    law_deepest_is_height(node);
    law_widest(node);
    lemma2_to64();
}

/// The node that lookup finds stands on the level that the depth search reports.
pub proof fn law_found_on_level<T: Copy>(node: &TreeNode<T>, id: NodeId)
    requires
        node.has_id(id),
    ensures
        node.depth_of(id) >= 0,
        node.find(id) matches Some(found) && node.level(node.depth_of(id) as nat).contains(found),
    decreases node,
{
    law_depth_of(node, id);
    if node.id == id {
        assert(node.level(0)[0] == node.find(id).unwrap());
    } else {
        let depth = node.depth_of(id) as nat;
        let up = (depth - 1) as nat;
        let left: Seq<TreeNodeRef<T>> = match node.left {
            Some(l) => l.level(up),
            None => Seq::empty(),
        };
        let right: Seq<TreeNodeRef<T>> = match node.right {
            Some(r) => r.level(up),
            None => Seq::empty(),
        };
        assert(node.level(depth) == left + right);
        let found = node.find(id).unwrap();
        if let Some(l) = node.left {
            law_depth_of(&*l, id);
        }
        if let Some(r) = node.right {
            law_depth_of(&*r, id);
        }
        if node.left is Some && node.left.unwrap().has_id(id) {
            let l = node.left.unwrap();
            law_found_on_level(&*l, id);
            let k = choose|k: int| 0 <= k < left.len() && left[k] == found;
            assert((left + right)[k] == found);
        } else {
            let r = node.right.unwrap();
            law_found_on_level(&*r, id);
            let k = choose|k: int| 0 <= k < right.len() && right[k] == found;
            assert((left + right)[left.len() + k] == found);
        }
    }
}

/// Three leaves offered in a row to a node without children: the first goes to the left,
/// the second to the right, and the third is refused and changes nothing.
pub proof fn law_add_leaf_thrice<T: Copy>(
    start: TreeNode<T>,
    first: T,
    after_first: TreeNode<T>,
    first_accepted: bool,
    second: T,
    after_second: TreeNode<T>,
    second_accepted: bool,
    third: T,
    after_third: TreeNode<T>,
    third_accepted: bool,
)
    requires
        start.left is None,
        start.right is None,
        TreeNode::add_leaf_step(start, first, after_first, first_accepted),
        TreeNode::add_leaf_step(after_first, second, after_second, second_accepted),
        TreeNode::add_leaf_step(after_second, third, after_third, third_accepted),
    ensures
        first_accepted,
        second_accepted,
        !third_accepted,
        TreeNode::holds_leaf(after_first.left, first),
        after_first.right is None,
        after_second.left == after_first.left,
        TreeNode::holds_leaf(after_second.right, second),
        after_third == after_second,
{
}

} // verus!
