//! Trees drawn as text, with box-drawing connectors.

pub mod data;
pub mod formatter;
pub mod interface;
pub mod json;
pub mod laws;
pub mod layout;
pub mod paint;
pub mod text;

pub use data::{Node, PrettyBranch, PrettyFragment, PrettyTree, PrettyValue};
pub use formatter::{Formatter, FormatterStyle, TreeColumn};
pub use interface::ToPrettyTree;

use core::fmt::Display;
use data::keyed;
use interface::{turn_into, turns_into};
use text::shown;
use vstd::prelude::*;

verus! {

/// A branch under `label` of the trees that `children` turn into, in their order.
pub fn branch_of<T: ToPrettyTree>(label: &str, children: Vec<T>) -> (tree: PrettyTree)
    ensures
        tree@ matches Node::Branch { label: above, children: below } && above == label@
            && turn_into(children@, below),
{
    PrettyTree::branch_of(label, children)
}

/// The tree that `value` turns into, under `key`.
pub fn field<T: ToPrettyTree>(key: &str, value: &T) -> (tree: PrettyTree)
    ensures
        exists|node: Node| turns_into(*value, node) && tree@ == keyed(key@, node),
{
    let value = value.to_pretty_tree();
    PrettyTree::key_value(key, value)
}

/// A leaf with the text `text`, quoted when it is drawn.
pub fn string(text: &str) -> (tree: PrettyTree)
    ensures
        tree@ == (Node::Quoted { text: text@ }),
{
    PrettyTree::String(String::from_str(text))
}

/// A leaf with the text that `item` writes of itself.
pub fn value<T: Display + ?Sized>(item: &T) -> (tree: PrettyTree)
    ensures
        tree@ matches Node::Value { text } && shown(item, text),
{
    PrettyTree::Value(item.to_string())
}

/// The branch under `label` that has no child yet.
pub fn branch_builder(label: &str) -> (branch: PrettyBranch)
    ensures
        branch@ == (Node::Branch { label: label@, children: Seq::empty() }),
{
    PrettyBranch::new(label)
}

} // verus!
