//! The text form of a tree for the Typst `cetz` tree drawer.
//!
//! A node without children is written `[label]`.  A node with children is written
//! `([label], LEFT, RIGHT)`, where `LEFT` and `RIGHT` are the texts of its children; a missing
//! left child leaves out `LEFT, `, a missing right child leaves `RIGHT` empty.  The label is
//! what `Display` writes for the node's value.

use crate::node::TreeNode;
use crate::tree::Tree;
use std::fmt::Display;
use vstd::prelude::*;
use vstd::string::to_string_from_display_ensures;

verus! {

/// What stands before the tree's text in a complete Typst document.
pub const TYPST_PREAMBLE: &'static str = "\n#let data = (\n";

/// What stands after the tree's text in a complete Typst document: the import of `cetz` and
/// the canvas that draws `data`.
pub const TYPST_POSTAMBLE: &'static str = r#"
)

#import "@preview/cetz:0.1.2": canvas, draw, tree

#canvas(length: 1cm, {
  import draw: *

  set-style(content: (padding: .2),
    fill: gray.lighten(70%),
    stroke: gray.lighten(70%))

  tree.tree(data, spread: 2.5, grow: 1.5, draw-node: (node, _) => {
    circle((), radius: .45, stroke: none)
    content((), node.content)
  }, draw-edge: (from, to, _) => {
    line((a: from, number: .6, abs: true, b: to),
         (a: to, number: .6, abs: true, b: from), mark: (end: ">"))
  }, name: "tree")
})
"#;

/// The text of a node without children.
pub open spec fn leaf_text(label: Seq<char>) -> Seq<char> {
    "["@ + label + "]"@
}

/// The text of a node with at least one child, given the texts of its children.
pub open spec fn branch_text(
    label: Seq<char>,
    left: Option<Seq<char>>,
    right: Option<Seq<char>>,
) -> Seq<char> {
    "("@ + "["@ + label + "], "@ + (match left {
        Some(l) => l + ", "@,
        None => Seq::empty(),
    }) + (match right {
        Some(r) => r,
        None => Seq::empty(),
    }) + ")"@
}

/// The text of a node, given its label and the texts of its children.
pub open spec fn node_text(
    label: Seq<char>,
    left: Option<Seq<char>>,
    right: Option<Seq<char>>,
) -> Seq<char> {
    if left is None && right is None {
        leaf_text(label)
    } else {
        branch_text(label, left, right)
    }
}

/// The characters of a text that may be absent.
pub open spec fn text_of(text: Option<&str>) -> Option<Seq<char>> {
    match text {
        Some(t) => Some(t@),
        None => None,
    }
}

/// A complete Typst document around the text of a tree.
pub open spec fn document_text(body: Seq<char>) -> Seq<char> {
    TYPST_PREAMBLE@ + body + TYPST_POSTAMBLE@
}

/// Writes a node from its label and the texts of its children.
pub fn typst_node(label: &str, left: Option<&str>, right: Option<&str>) -> (text: String)
    ensures
        text@ == node_text(label@, text_of(left), text_of(right)),
{
    if left.is_none() && right.is_none() {
        let mut out = String::from_str("[");
        out.append(label);
        out.append("]");
        out
    } else {
        let mut out = String::from_str("(");
        out.append("[");
        out.append(label);
        out.append("], ");
        if let Some(l) = left {
            out.append(l);
            out.append(", ");
        }
        if let Some(r) = right {
            out.append(r);
        }
        out.append(")");
        out
    }
}

/// Wraps the text of a tree into a complete Typst document.
pub fn typst_page(body: &str) -> (text: String)
    ensures
        text@ == document_text(body@),
{
    let mut out = String::from_str(TYPST_PREAMBLE);
    out.append(body);
    out.append(TYPST_POSTAMBLE);
    out
}

impl<T: Copy + Display> TreeNode<T> {
    /// Whether `text` is a text of the subtree rooted here: the text of this node, built
    /// from a label that `Display` may write for its value and from texts of its children.
    pub open spec fn renders_as(&self, text: Seq<char>) -> bool
        decreases self,
    {
        exists|label: String, left: Option<Seq<char>>, right: Option<Seq<char>>|
            {
                &&& to_string_from_display_ensures::<T>(&self.value, label)
                &&& match self.left {
                    Some(l) => left matches Some(t) && l.renders_as(t),
                    None => left is None,
                }
                &&& match self.right {
                    Some(r) => right matches Some(t) && r.renders_as(t),
                    None => right is None,
                }
                &&& text == #[trigger] node_text(label@, left, right)
            }
    }

    /// The text of the subtree rooted here.
    pub fn format_typst(&self) -> (text: String)
        ensures
            self.renders_as(text@),
        decreases self,
    {
        let label = self.value.to_string();
        let left = match &self.left {
            Some(l) => Some(l.format_typst()),
            None => None,
        };
        let right = match &self.right {
            Some(r) => Some(r.format_typst()),
            None => None,
        };
        let left_text = match &left {
            Some(t) => Some(t.as_str()),
            None => None,
        };
        let right_text = match &right {
            Some(t) => Some(t.as_str()),
            None => None,
        };
        typst_node(label.as_str(), left_text, right_text)
    }
}

impl<T: Copy + Display> Tree<T> {
    /// The text of the whole tree.
    pub fn typst_string(&self) -> (text: String)
        ensures
            self.root.renders_as(text@),
    {
        self.root.format_typst()
    }

    /// A complete Typst document that draws the tree.
    pub fn typst_document(&self) -> (text: String)
        ensures
            exists|body: Seq<char>|
                self.root.renders_as(body) && text@ == #[trigger] document_text(body),
    {
        let body = self.typst_string();
        typst_page(body.as_str())
    }
}

} // verus!
