//! Binary trees of shared nodes: preorder traversal, lookup of a node by its identifier,
//! depth and width measures, and a text rendering for the Typst `cetz` tree drawer.

pub mod equality;
pub mod handle;
pub mod ident;
pub mod laws;
pub mod model;
pub mod node;
pub mod preorderiter;
pub mod tree;
pub mod typst;

pub use ident::NodeId;
pub use node::{TreeNode, TreeNodeProperties, TreeNodeRef};
pub use preorderiter::PreOrderIter;
pub use tree::Tree;

use vstd::prelude::*;

verus! {

/// The sum of two numbers that fits in a `u64`.
pub fn add(left: u64, right: u64) -> (sum: u64)
    requires
        left + right <= u64::MAX,
    ensures
        sum == left + right,
{
    left + right
}

} // verus!
