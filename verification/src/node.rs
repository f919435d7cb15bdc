//! The node of a binary tree: how nodes are built, changed and searched.

use crate::handle::share;
use crate::ident::{fresh_id, is_random_id, NodeId};
use crate::laws::{law_depth_of, law_find, law_preorder_len};
use crate::preorderiter::PreOrderIter;
use std::rc::Rc;
use vstd::prelude::*;

verus! {

/// What `add_leaf` reports when both places for a child are taken.
pub const FULL_NODE_MESSAGE: &'static str = "Attempted to add a leaf to a full node";

/// A shared handle to a node.  Handles are cheap to copy; every copy names the same node.
/// The node behind a handle is read-only while more than one handle names it.
pub type TreeNodeRef<T> = Rc<TreeNode<T>>;

/// A node: a value, up to two children, and the identifier it was given when it was built.
/// Copies of a node keep its identifier; the searches take them for the same node.
#[derive(Debug)]
pub struct TreeNode<T: Copy> {
    pub value: T,
    pub left: Option<TreeNodeRef<T>>,
    pub right: Option<TreeNodeRef<T>>,
    pub id: NodeId,
}

impl<T: Copy> TreeNode<T> {
    /// A node with the given value and children and a fresh random identifier.
    pub fn new(value: T, left: Option<TreeNodeRef<T>>, right: Option<TreeNodeRef<T>>) -> (node:
        Self)
        ensures
            node.value == value,
            node.left == left,
            node.right == right,
            is_random_id(node.id),
    {
        TreeNode { value, left, right, id: fresh_id() }
    }

    /// A handle to a new node with the given value and children and a fresh random
    /// identifier.
    pub fn new_rc(value: T, left: Option<TreeNodeRef<T>>, right: Option<TreeNodeRef<T>>) -> (node:
        TreeNodeRef<T>)
        ensures
            node.value == value,
            node.left == left,
            node.right == right,
            is_random_id(node.id),
    {
        Rc::new(TreeNode::new(value, left, right))
    }

    /// Whether the node carries the identifier `id`.
    pub fn cmp_id(&self, id: NodeId) -> (same: bool)
        ensures
            same == (self.id == id),
    {
        self.id == id
    }

    /// Hangs a new leaf with the given value in the left place, whatever was there.
    pub fn add_left(&mut self, value: T)
        ensures
            Self::holds_leaf(final(self).left, value),
            final(self).right == old(self).right,
            final(self).value == old(self).value,
            final(self).id == old(self).id,
    {
        self.left = Some(Rc::new(TreeNode::new(value, None, None)));
    }

    /// Hangs a new leaf with the given value in the right place, whatever was there.
    pub fn add_right(&mut self, value: T)
        ensures
            Self::holds_leaf(final(self).right, value),
            final(self).left == old(self).left,
            final(self).value == old(self).value,
            final(self).id == old(self).id,
    {
        self.right = Some(Rc::new(TreeNode::new(value, None, None)));
    }

    /// Makes `node` the left child, whatever was there.
    pub fn set_left(&mut self, node: TreeNode<T>)
        ensures
            final(self).left == Some(Rc::new(node)),
            final(self).right == old(self).right,
            final(self).value == old(self).value,
            final(self).id == old(self).id,
    {
        self.left = Some(Rc::new(node));
    }

    /// Makes `node` the right child, whatever was there.
    pub fn set_right(&mut self, node: TreeNode<T>)
        ensures
            final(self).right == Some(Rc::new(node)),
            final(self).left == old(self).left,
            final(self).value == old(self).value,
            final(self).id == old(self).id,
    {
        self.right = Some(Rc::new(node));
    }

    /// Hangs a new leaf with the given value in the first free place, the left one before
    /// the right one.  A node that has both children takes no more: it is left as it is and
    /// the error carries [`FULL_NODE_MESSAGE`].
    pub fn add_leaf(&mut self, leaf: T) -> (outcome: Result<(), String>)
        ensures
            Self::add_leaf_step(*old(self), leaf, *final(self), outcome is Ok),
            outcome matches Err(message) ==> message@ == FULL_NODE_MESSAGE@,
    {
        if self.left.is_none() {
            self.add_left(leaf);
            return Ok(());
        } else if self.right.is_none() {
            self.add_right(leaf);
            return Ok(());
        }
        Err(String::from_str(FULL_NODE_MESSAGE))
    }

    /// Whether the node has no children.
    pub fn is_leaf(&self) -> (leaf: bool)
        ensures
            leaf == (self.left is None && self.right is None),
    {
        self.left.is_none() && self.right.is_none()
    }

    /// The number of children the node has: 0, 1 or 2.
    pub fn count_children(&self) -> (count: usize)
        ensures
            count == (if self.left is Some {
                1nat
            } else {
                0nat
            }) + (if self.right is Some {
                1nat
            } else {
                0nat
            }),
    {
        let mut count: usize = 0;
        if self.left.is_some() {
            count += 1;
        }
        if self.right.is_some() {
            count += 1;
        }
        count
    }

    /// The depth below `root` of the node that carries `id`: 0 for `root` itself, 1 for its
    /// children, and so on; -1 if the subtree holds no such node.  The left subtree is
    /// searched before the right one, and the first node found decides.
    pub fn depth(root: &TreeNode<T>, id: &NodeId) -> (d: isize)
        requires
            root.height() <= isize::MAX,
        ensures
            d == root.depth_of(*id),
            d >= 0 <==> root.has_id(*id),
            -1 <= d <= root.height(),
        decreases *root,
    {
        proof {
            law_depth_of(root, *id);
        }
        if root.id == *id {
            return 0;
        }
        if let Some(left) = &root.left {
            let dist = TreeNode::depth(left, id);
            if dist >= 0 {
                return dist + 1;
            }
        }
        if let Some(right) = &root.right {
            let dist = TreeNode::depth(right, id);
            if dist >= 0 {
                return dist + 1;
            }
        }
        -1
    }

    /// Handles to the nodes of the subtree in preorder: this node, then the whole left
    /// subtree, then the whole right subtree.  The first handle names a copy of this node
    /// that shares its children; every call walks the tree anew.
    pub fn pre_order_vec(&self) -> (nodes: Vec<TreeNodeRef<T>>)
        ensures
            nodes@ == self.preorder(),
    {
        let mut walk = PreOrderIter::new(Some(Rc::new(self.clone())));
        let mut nodes: Vec<TreeNodeRef<T>> = Vec::new();
        loop
            invariant
                nodes@ + walk.remaining() == self.preorder(),
            ensures
                nodes@ == self.preorder(),
            decreases walk.remaining().len(),
        {
            match walk.next() {
                Some(node) => {
                    nodes.push(node);
                },
                None => {
                    break ;
                },
            }
        }
        nodes
    }

    /// The number of nodes in the subtree, this node included.
    pub fn count(self) -> (total: usize)
        requires
            self.size() <= usize::MAX,
        ensures
            total == self.size(),
            total == self.preorder().len(),
    {
        proof {
            law_preorder_len(&self);
        }
        let ghost whole = self.size();
        let mut walk = PreOrderIter::new(Some(Rc::new(self)));
        let mut total: usize = 0;
        loop
            invariant
                total + walk.remaining().len() == whole,
                whole <= usize::MAX,
            ensures
                total == whole,
            decreases walk.remaining().len(),
        {
            match walk.next() {
                Some(_) => {
                    total += 1;
                },
                None => {
                    break ;
                },
            }
        }
        total
    }

    /// The node's identifier.
    pub fn get_id(&self) -> (id: NodeId)
        ensures
            id == self.id,
    {
        self.id
    }
}

impl<T: Copy> Clone for TreeNode<T> {
    /// A copy of the node with the same value and identifier, sharing both children with
    /// this node.
    fn clone(&self) -> (copy: Self)
        ensures
            copy == *self,
    {
        let left = match &self.left {
            Some(l) => Some(share(l)),
            None => None,
        };
        let right = match &self.right {
            Some(r) => Some(share(r)),
            None => None,
        };
        TreeNode { value: self.value, left, right, id: self.id }
    }
}

/// Lookup among the nodes that a handle reaches.
pub trait TreeNodeProperties<T: Copy> {
    /// A handle to the node that carries the identifier `id`, if the handle reaches one.
    fn get_by_id(&self, id: NodeId) -> Option<TreeNodeRef<T>>;
}

impl<T: Copy> TreeNodeProperties<T> for TreeNodeRef<T> {
    /// A handle to the first node in preorder, this node included, that carries the
    /// identifier `id`; `None` exactly when no node of the subtree carries it.
    fn get_by_id(&self, id: NodeId) -> (found: Option<TreeNodeRef<T>>)
        ensures
            found == self.find(id),
            found is Some <==> self.has_id(id),
            found matches Some(node) ==> node.id == id && self.preorder().contains(node),
        decreases *self,
    {
        proof {
            law_find(self, id);
        }
        if self.id == id {
            return Some(share(self));
        }
        if let Some(left) = &self.left {
            let in_left = left.get_by_id(id);
            if in_left.is_some() {
                return in_left;
            }
        }
        if let Some(right) = &self.right {
            let in_right = right.get_by_id(id);
            if in_right.is_some() {
                return in_right;
            }
        }
        None
    }
}

} // verus!
