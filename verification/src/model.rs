//! The mathematical model of a tree.
//!
//! A node stands for the tree below it.  Handles are transparent: a handle is the node it
//! names, so a node that hangs in two places of a tree counts, and is visited, once for each
//! place.  A node behind a handle cannot be changed, so no tree ever contains itself and
//! every walk down a tree ends.  The contracts of the library speak of a tree through the
//! functions below: its nodes in preorder and level by level, its size, height and width,
//! and what the searches by identifier find.

use crate::ident::{is_random_id, NodeId};
use crate::node::{TreeNode, TreeNodeRef};
use std::rc::Rc;
use vstd::prelude::*;

verus! {

impl<T: Copy> TreeNode<T> {
    /// The number of nodes in the subtree rooted here, this node included.
    pub open spec fn size(&self) -> nat
        decreases self,
    {
        1 + (match self.left {
            Some(l) => l.size(),
            None => 0,
        }) + (match self.right {
            Some(r) => r.size(),
            None => 0,
        })
    }

    /// The number of edges on the longest path from this node down to a leaf.
    pub open spec fn height(&self) -> nat
        decreases self,
    {
        match (self.left, self.right) {
            (None, None) => 0,
            (Some(l), None) => 1 + l.height(),
            (None, Some(r)) => 1 + r.height(),
            (Some(l), Some(r)) => 1 + if l.height() >= r.height() {
                l.height()
            } else {
                r.height()
            },
        }
    }

    /// The nodes of the subtree in preorder: this node, then the left subtree, then the right.
    pub open spec fn preorder(&self) -> Seq<TreeNodeRef<T>>
        decreases self,
    {
        seq![Rc::new(*self)] + (match self.left {
            Some(l) => l.preorder(),
            None => Seq::empty(),
        }) + (match self.right {
            Some(r) => r.preorder(),
            None => Seq::empty(),
        })
    }

    /// The nodes that stand `depth` edges below this node, from left to right.
    pub open spec fn level(&self, depth: nat) -> Seq<TreeNodeRef<T>>
        decreases depth,
    {
        if depth == 0 {
            seq![Rc::new(*self)]
        } else {
            (match self.left {
                Some(l) => l.level((depth - 1) as nat),
                None => Seq::empty(),
            }) + (match self.right {
                Some(r) => r.level((depth - 1) as nat),
                None => Seq::empty(),
            })
        }
    }

    /// The children of the node, the left one before the right one.
    pub open spec fn children(&self) -> Seq<TreeNodeRef<T>> {
        (match self.left {
            Some(l) => seq![l],
            None => Seq::empty(),
        }) + (match self.right {
            Some(r) => seq![r],
            None => Seq::empty(),
        })
    }

    /// The children of all the given nodes, in the order of their parents.
    pub open spec fn children_of(nodes: Seq<TreeNodeRef<T>>) -> Seq<TreeNodeRef<T>>
        decreases nodes.len(),
    {
        if nodes.len() == 0 {
            Seq::empty()
        } else {
            Self::children_of(nodes.drop_last()) + nodes.last().children()
        }
    }

    /// Whether some node of the subtree carries the identifier `id`.
    pub open spec fn has_id(&self, id: NodeId) -> bool {
        exists|i: int| 0 <= i < self.preorder().len() && (#[trigger] self.preorder()[i]).id == id
    }

    /// Whether no two places of the subtree carry the same identifier.  This holds of a tree
    /// whose nodes were each built once and hung in one place; it fails where a handle was
    /// hung twice or an identifier happened to be drawn twice.
    pub open spec fn distinct_ids(&self) -> bool {
        forall|i: int, j: int|
            0 <= i < j < self.preorder().len() ==> (#[trigger] self.preorder()[i]).id != (
            #[trigger] self.preorder()[j]).id
    }

    /// Whether one of this node's two children carries the identifier `id`.
    pub open spec fn has_child(&self, id: NodeId) -> bool {
        ||| self.left matches Some(l) && l.id == id
        ||| self.right matches Some(r) && r.id == id
    }

    /// Whether some node of the subtree has a child that carries the identifier `id`.
    pub open spec fn has_parent_of(&self, id: NodeId) -> bool {
        exists|i: int|
            0 <= i < self.preorder().len() && (#[trigger] self.preorder()[i]).has_child(id)
    }

    /// The first node in preorder that is `wanted`, if there is one.
    pub open spec fn first_where(&self, wanted: spec_fn(TreeNode<T>) -> bool) -> Option<
        TreeNodeRef<T>,
    >
        decreases self,
    {
        let in_left = match self.left {
            Some(l) => l.first_where(wanted),
            None => None,
        };
        let in_right = match self.right {
            Some(r) => r.first_where(wanted),
            None => None,
        };
        if wanted(*self) {
            Some(Rc::new(*self))
        } else if in_left is Some {
            in_left
        } else {
            in_right
        }
    }

    /// The first node in preorder that carries the identifier `id`, if there is one.
    pub open spec fn find(&self, id: NodeId) -> Option<TreeNodeRef<T>> {
        self.first_where(|n: TreeNode<T>| n.id == id)
    }

    /// The first node in preorder that has a child carrying the identifier `id`, if there
    /// is one.
    pub open spec fn parent_of(&self, id: NodeId) -> Option<TreeNodeRef<T>> {
        self.first_where(|n: TreeNode<T>| n.has_child(id))
    }

    /// The number of edges from this node down to the first node in preorder that carries
    /// the identifier `id`, or -1 if no node of the subtree carries it.
    pub open spec fn depth_of(&self, id: NodeId) -> int
        decreases self,
    {
        let in_left = match self.left {
            Some(l) => l.depth_of(id),
            None => -1,
        };
        let in_right = match self.right {
            Some(r) => r.depth_of(id),
            None => -1,
        };
        if self.id == id {
            0
        } else if in_left >= 0 {
            in_left + 1
        } else if in_right >= 0 {
            in_right + 1
        } else {
            -1
        }
    }

    /// The greatest depth that `depth_of` reports below this node for the identifiers of the
    /// given nodes; 0 if there are none.
    pub open spec fn deepest_among(&self, nodes: Seq<TreeNodeRef<T>>) -> int
        decreases nodes.len(),
    {
        if nodes.len() == 0 {
            0
        } else {
            let before = self.deepest_among(nodes.drop_last());
            let here = self.depth_of(nodes.last().id);
            if before < here {
                here
            } else {
                before
            }
        }
    }

    /// The greatest depth that `depth_of` reports for the identifier of any node of the
    /// subtree.
    pub open spec fn deepest(&self) -> int {
        self.deepest_among(self.preorder())
    }

    /// The greatest number of nodes on any one level from the root down to `depth`.
    pub open spec fn widest_upto(&self, depth: nat) -> nat
        decreases depth,
    {
        let here = self.level(depth).len();
        if depth == 0 {
            here
        } else {
            let above = self.widest_upto((depth - 1) as nat);
            if above < here {
                here
            } else {
                above
            }
        }
    }

    /// The width of the subtree: the greatest number of nodes on any one of its levels.
    pub open spec fn widest(&self) -> nat {
        self.widest_upto(self.height())
    }

    /// Whether `child` holds a node without children that carries `value` under a random
    /// identifier: what a place for a child holds once a new leaf has been hung there.
    pub open spec fn holds_leaf(child: Option<TreeNodeRef<T>>, value: T) -> bool {
        &&& child matches Some(c)
        &&& c.value == value
        &&& c.left is None
        &&& c.right is None
        &&& is_random_id(c.id)
    }

    /// What one `add_leaf` does: the node `before` the call, the value offered, the node
    /// `after` the call, and whether the value was `accepted`.  The new leaf goes to the left
    /// if that place is free, else to the right if that one is; a node with two children
    /// accepts nothing and stays as it is.  The other child, the value and the identifier of
    /// the node are never touched.
    pub open spec fn add_leaf_step(before: Self, leaf: T, after: Self, accepted: bool) -> bool {
        &&& after.value == before.value
        &&& after.id == before.id
        &&& if before.left is None {
            accepted && Self::holds_leaf(after.left, leaf) && after.right == before.right
        } else if before.right is None {
            accepted && after.left == before.left && Self::holds_leaf(after.right, leaf)
        } else {
            !accepted && after == before
        }
    }
}

} // verus!
