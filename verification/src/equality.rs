//! Equality of trees by content.
//!
//! Two nodes are equal when they carry equal values and their children are equal in turn.
//! Identifiers play no part: two trees built separately from the same values are equal,
//! though every node of one differs in identity from every node of the other.  To ask whether
//! two handles name the same node, compare the identifiers.

use crate::node::TreeNode;
use crate::tree::Tree;
use vstd::prelude::*;
use vstd::std_specs::cmp::{PartialEqSpec, PartialEqSpecImpl};

verus! {

impl<T: Copy + PartialEq> TreeNode<T> {
    /// Whether two subtrees have the same shape and carry equal values in the same places.
    pub open spec fn same_content(&self, other: &Self) -> bool
        decreases self,
    {
        &&& self.value.eq_spec(&other.value)
        &&& match (self.left, other.left) {
            (None, None) => true,
            (Some(a), Some(b)) => a.same_content(&b),
            _ => false,
        }
        &&& match (self.right, other.right) {
            (None, None) => true,
            (Some(a), Some(b)) => a.same_content(&b),
            _ => false,
        }
    }

    /// Compares two subtrees by content.  What is known of the result rests on what is known
    /// of `==` on the values.
    pub fn content_eq(&self, other: &Self) -> (same: bool)
        ensures
            T::obeys_eq_spec() ==> same == self.same_content(other),
        decreases self,
    {
        if !(self.value == other.value) {
            return false;
        }
        let left_same = match (&self.left, &other.left) {
            (None, None) => true,
            (Some(a), Some(b)) => a.content_eq(b),
            _ => false,
        };
        if !left_same {
            return false;
        }
        match (&self.right, &other.right) {
            (None, None) => true,
            (Some(a), Some(b)) => a.content_eq(b),
            _ => false,
        }
    }
}

impl<T: Copy + PartialEq> PartialEq for TreeNode<T> {
    fn eq(&self, other: &Self) -> (same: bool) {
        self.content_eq(other)
    }
}

impl<T: Copy + PartialEq> PartialEqSpecImpl for TreeNode<T> {
    open spec fn obeys_eq_spec() -> bool {
        T::obeys_eq_spec()
    }

    open spec fn eq_spec(&self, other: &Self) -> bool {
        self.same_content(other)
    }
}

impl<T: Copy + PartialEq> PartialEq for Tree<T> {
    fn eq(&self, other: &Self) -> (same: bool) {
        self.root.content_eq(&other.root)
    }
}

impl<T: Copy + PartialEq> PartialEqSpecImpl for Tree<T> {
    open spec fn obeys_eq_spec() -> bool {
        T::obeys_eq_spec()
    }

    open spec fn eq_spec(&self, other: &Self) -> bool {
        self.root.same_content(&other.root)
    }
}

} // verus!
