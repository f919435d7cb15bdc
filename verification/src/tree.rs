//! A tree: a root handle, and the queries that start from it.

use crate::handle::share;
use crate::ident::NodeId;
use crate::laws::{
    law_deepest, law_level_len, law_level_step, law_parent_of, law_preorder_len, law_widest,
};
use crate::node::{TreeNode, TreeNodeProperties, TreeNodeRef};
use vstd::arithmetic::power2::{
    lemma2_to64, lemma_pow2_strictly_increases, lemma_pow2_unfold, pow2,
};
use vstd::prelude::*;

verus! {

/// The width bound that goes with a greatest depth: 1 for depth 0, a lone node, else one
/// more than two to the power of the depth.
pub open spec fn width_bound(depth: int) -> nat {
    if depth <= 0 {
        1
    } else {
        1 + pow2(depth as nat)
    }
}

/// A binary tree, named by a handle to its root.
#[derive(Debug)]
pub struct Tree<T: Copy> {
    pub root: TreeNodeRef<T>,
}

impl<T: Copy> Clone for Tree<T> {
    /// A second tree on the same root.
    fn clone(&self) -> (copy: Self)
        ensures
            copy == *self,
    {
        Tree { root: share(&self.root) }
    }
}

impl<T: Copy> Tree<T> {
    /// The tree below `root`.
    pub fn new(root: TreeNodeRef<T>) -> (tree: Self)
        ensures
            tree.root == root,
    {
        Tree { root }
    }

    /// A handle to the first node in preorder that carries the identifier `id`; `None`
    /// exactly when no node of the tree carries it.
    pub fn get_by_id(&self, id: NodeId) -> (found: Option<TreeNodeRef<T>>)
        ensures
            found == self.root.find(id),
            found is Some <==> self.root.has_id(id),
            found matches Some(node) ==> node.id == id && self.root.preorder().contains(node),
    {
        self.root.get_by_id(id)
    }

    /// A handle to the parent of the node that `node_ref` names: the first node in preorder
    /// one of whose children carries that node's identifier.  `None` when the tree has no
    /// such node, as for the root and for a node that is not in the tree.
    pub fn get_parent(&self, node_ref: &TreeNodeRef<T>) -> (parent: Option<TreeNodeRef<T>>)
        ensures
            parent == self.root.parent_of(node_ref.id),
            parent is Some <==> self.root.has_parent_of(node_ref.id),
            parent matches Some(p) ==> p.has_child(node_ref.id) && self.root.preorder().contains(p),
    {
        proof {
            law_parent_of(&*self.root, node_ref.id);
        }
        Tree::get_parent_rec(&self.root, node_ref.id)
    }

    fn get_parent_rec(node_ref: &TreeNodeRef<T>, find_id: NodeId) -> (parent: Option<
        TreeNodeRef<T>,
    >)
        ensures
            parent == node_ref.parent_of(find_id),
        decreases *node_ref,
    {
        if let Some(left) = &node_ref.left {
            if left.id == find_id {
                return Some(share(node_ref));
            }
        }
        if let Some(right) = &node_ref.right {
            if right.id == find_id {
                return Some(share(node_ref));
            }
        }
        if let Some(left) = &node_ref.left {
            let in_left = Tree::get_parent_rec(left, find_id);
            if in_left.is_some() {
                return in_left;
            }
        }
        if let Some(right) = &node_ref.right {
            let in_right = Tree::get_parent_rec(right, find_id);
            if in_right.is_some() {
                return in_right;
            }
        }
        None
    }

    /// The greatest depth of any node: `TreeNode::depth` is asked, from the root, for the
    /// identifier of every node in turn, and the largest answer is returned.
    pub fn max_depth(&self) -> (deepest: isize)
        requires
            self.root.height() <= isize::MAX,
        ensures
            deepest == self.root.deepest(),
            0 <= deepest <= self.root.height(),
            forall|i: int|
                0 <= i < self.root.preorder().len() ==> self.root.depth_of(
                    (#[trigger] self.root.preorder()[i]).id,
                ) <= deepest,
            exists|i: int|
                0 <= i < self.root.preorder().len() && self.root.depth_of(
                    (#[trigger] self.root.preorder()[i]).id,
                ) == deepest,
    {
        let root: &TreeNode<T> = &self.root;
        let node_vec = root.pre_order_vec();
        proof {
            law_preorder_len(root);
            law_deepest(root);
        }
        let mut deepest: isize = TreeNode::depth(root, &node_vec[0].id);
        let mut i: usize = 0;
        while i < node_vec.len()
            invariant
                i <= node_vec.len(),
                node_vec@ == root.preorder(),
                root.height() <= isize::MAX,
                deepest == root.deepest_among(node_vec@.take(i as int)),
            decreases node_vec.len() - i,
        {
            let node_depth = TreeNode::depth(root, &node_vec[i].id);
            proof {
                assert(node_vec@.take(i + 1).drop_last() == node_vec@.take(i as int));
            }
            if deepest < node_depth {
                deepest = node_depth;
            }
            i += 1;
        }
        proof {
            assert(node_vec@.take(i as int) == node_vec@);
        }
        deepest
    }

    /// The width of the tree: the greatest number of nodes on any one level.  The tree is
    /// walked level by level, and the longest level met is remembered.
    pub fn max_width(&self) -> (width: usize)
        ensures
            width == self.root.widest(),
            forall|depth: nat| (#[trigger] self.root.level(depth)).len() <= width,
            exists|depth: nat|
                depth <= self.root.height() && (#[trigger] self.root.level(depth)).len() == width,
    {
        proof {
            law_widest(&*self.root);
        }
        let mut frontier: Vec<TreeNodeRef<T>> = Vec::new();
        frontier.push(share(&self.root));
        let mut width: usize = frontier.len();
        let ghost mut depth: nat = 0;
        proof {
            law_level_len(&*self.root, 0);
        }
        while frontier.len() > 0
            invariant
                frontier@ == self.root.level(depth),
                depth <= self.root.height() + 1,
                width == self.root.widest_upto(
                    if depth == 0 {
                        0
                    } else {
                        (depth - 1) as nat
                    },
                ),
            decreases self.root.height() + 1 - depth,
        {
            if width < frontier.len() {
                width = frontier.len();
            }
            let below = Tree::children_of(&frontier);
            proof {
                law_level_len(&*self.root, depth);
                law_level_step(&*self.root, depth);
                depth = depth + 1;
            }
            frontier = below;
        }
        proof {
            law_level_len(&*self.root, depth);
        }
        width
    }

    /// Handles to the children of all the given nodes, in the order of their parents.
    fn children_of(nodes: &Vec<TreeNodeRef<T>>) -> (below: Vec<TreeNodeRef<T>>)
        ensures
            below@ == TreeNode::children_of(nodes@),
    {
        let mut below: Vec<TreeNodeRef<T>> = Vec::new();
        let mut i: usize = 0;
        while i < nodes.len()
            invariant
                i <= nodes.len(),
                below@ == TreeNode::children_of(nodes@.take(i as int)),
            decreases nodes.len() - i,
        {
            let ghost before = below@;
            let node = &nodes[i];
            if let Some(left) = &node.left {
                below.push(share(left));
            }
            if let Some(right) = &node.right {
                below.push(share(right));
            }
            proof {
                assert(below@ == before + node.children());
                assert(nodes@.take(i + 1).drop_last() == nodes@.take(i as int));
            }
            i += 1;
        }
        proof {
            assert(nodes@.take(i as int) == nodes@);
        }
        below
    }

    /// The greatest width the tree could have at its depth: 1 for a lone node, else
    /// `1 + 2^d` where `d` is the greatest depth of any node.  This bounds the width from
    /// above; it is not the number of nodes on any level.
    pub fn max_width_upper(&self) -> (width: isize)
        requires
            self.root.height() <= isize::MAX,
            width_bound(self.root.deepest()) <= isize::MAX,
        ensures
            width == width_bound(self.root.deepest()),
    {
        let depth: isize = self.max_depth();
        if depth == 0 {
            return 1;
        }
        proof {
            law_deepest(&*self.root);
            lemma2_to64();
        }
        let mut power: isize = 1;
        let mut k: isize = 0;
        while k < depth
            invariant
                0 <= k <= depth,
                power == pow2(k as nat),
                1 + pow2(depth as nat) <= isize::MAX,
            decreases depth - k,
        {
            proof {
                lemma_pow2_unfold((k + 1) as nat);
                if k + 1 < depth {
                    lemma_pow2_strictly_increases((k + 1) as nat, depth as nat);
                }
            }
            power = power * 2;
            k += 1;
        }
        1 + power
    }
}

} // verus!
