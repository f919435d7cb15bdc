//! Preorder traversal with an explicit stack.

use crate::handle::share;
use crate::node::{TreeNode, TreeNodeRef};
use vstd::prelude::*;

verus! {

/// The nodes that a stack of subtrees still owes, in the order they will be visited: the
/// preorder of the subtree on top of the stack (its last entry), then that of the one below
/// it, and so on down to the bottom.
spec fn pending<T: Copy>(stack: Seq<TreeNodeRef<T>>) -> Seq<TreeNodeRef<T>>
    decreases stack.len(),
{
    if stack.len() == 0 {
        Seq::empty()
    } else {
        stack.last().preorder() + pending(stack.drop_last())
    }
}

/// The stack `rest` with the children of `node` pushed onto it, the right child first so
/// that the left one ends on top.
spec fn children_onto<T: Copy>(rest: Seq<TreeNodeRef<T>>, node: TreeNode<T>) -> Seq<
    TreeNodeRef<T>,
> {
    let with_right = match node.right {
        Some(r) => rest.push(r),
        None => rest,
    };
    match node.left {
        Some(l) => with_right.push(l),
        None => with_right,
    }
}

/// Pushing a subtree puts its whole preorder in front of what was owed before.
proof fn lemma_pending_push<T: Copy>(stack: Seq<TreeNodeRef<T>>, top: TreeNodeRef<T>)
    ensures
        pending(stack.push(top)) == top.preorder() + pending(stack),
{
    assert(stack.push(top).drop_last() == stack);
}

/// Replacing the subtree on top of a stack by its children takes exactly the root of that
/// subtree off what is owed.
proof fn lemma_pending_expand<T: Copy>(rest: Seq<TreeNodeRef<T>>, top: TreeNodeRef<T>)
    ensures
        pending(rest.push(top)).len() > 0,
        pending(rest.push(top))[0] == top,
        pending(children_onto(rest, *top)) == pending(rest.push(top)).drop_first(),
{
    lemma_pending_push(rest, top);
    let with_right = match top.right {
        Some(r) => rest.push(r),
        None => rest,
    };
    if let Some(r) = top.right {
        lemma_pending_push(rest, r);
    }
    if let Some(l) = top.left {
        lemma_pending_push(with_right, l);
    }
    assert(pending(children_onto(rest, *top)) == (top.preorder() + pending(rest)).drop_first());
}

/// A preorder traversal in progress.  The iterator holds the subtrees not yet entered on a
/// stack; each step takes the top one, hands out its root and puts its children in its place.
pub struct PreOrderIter<T: Copy> {
    stack: Vec<TreeNodeRef<T>>,
}

impl<T: Copy> PreOrderIter<T> {
    /// The nodes that the iterator has yet to hand out, in order.
    pub closed spec fn remaining(self) -> Seq<TreeNodeRef<T>> {
        pending(self.stack@)
    }

    /// An iterator over the subtree below `root` in preorder; over nothing if there is no
    /// root.
    pub fn new(root: Option<TreeNodeRef<T>>) -> (iter: Self)
        ensures
            iter.remaining() == match root {
                Some(r) => r.preorder(),
                None => Seq::empty(),
            },
    {
        let mut stack: Vec<TreeNodeRef<T>> = Vec::new();
        if let Some(r) = root {
            proof {
                lemma_pending_push(stack@, r);
            }
            stack.push(r);
        }
        PreOrderIter { stack }
    }

    /// Hands out the next node in preorder, or `None` once every node has been handed out.
    pub fn next(&mut self) -> (node: Option<TreeNodeRef<T>>)
        ensures
            old(self).remaining().len() == 0 ==> node is None && final(self).remaining()
                == old(self).remaining(),
            old(self).remaining().len() > 0 ==> node == Some(old(self).remaining()[0])
                && final(self).remaining() == old(self).remaining().drop_first(),
    {
        let ghost before = self.stack@;
        match self.stack.pop() {
            None => None,
            Some(top) => {
                let ghost rest = self.stack@;
                proof {
                    assert(before == rest.push(top));
                    lemma_pending_expand(rest, top);
                }
                if let Some(right) = &top.right {
                    self.stack.push(share(right));
                }
                if let Some(left) = &top.left {
                    self.stack.push(share(left));
                }
                assert(self.stack@ == children_onto(rest, *top));
                Some(top)
            },
        }
    }
}

} // verus!
