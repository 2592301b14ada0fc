//! Values that can be drawn.

use crate::data::{trees_of, Node, PrettyBranch, PrettyTree};
use crate::text::{debug_quoted, decimal, decimal_text, key_text, shown};
use core::fmt::Display;
use vstd::prelude::*;

verus! {

/// A value that can be turned into a tree.
///
/// Nothing is asked of the tree: a type says in its own impl what its values turn into.
pub trait ToPrettyTree {
    /// The tree that stands for this value.
    fn to_pretty_tree(&self) -> PrettyTree;
}

/// Whether `node` is the value of a tree that `value` may be turned into.
pub open spec fn turns_into<T: ToPrettyTree>(value: T, node: Node) -> bool {
    exists|tree: PrettyTree| #[trigger]
        call_ensures(T::to_pretty_tree, (&value,), tree) && tree@ == node
}

/// Whether `nodes` are the values of trees that `values` may be turned into, one for one.
pub open spec fn turn_into<T: ToPrettyTree>(values: Seq<T>, nodes: Seq<Node>) -> bool {
    &&& nodes.len() == values.len()
    &&& forall|i: int| 0 <= i < values.len() ==> turns_into(#[trigger] values[i], nodes[i])
}

/// The leaf that is drawn as `text`.
pub open spec fn leaf_of(text: Seq<char>) -> Node {
    Node::Value { text }
}

impl ToPrettyTree for PrettyTree {
    /// A tree turns into a copy of itself.
    fn to_pretty_tree(&self) -> (tree: PrettyTree)
        ensures
            tree@ == self@,
    {
        self.clone()
    }
}

impl ToPrettyTree for PrettyBranch {
    /// A branch turns into the tree of a copy of itself.
    fn to_pretty_tree(&self) -> (tree: PrettyTree)
        ensures
            tree@ == self@,
    {
        PrettyTree::Branch(self.clone())
    }
}

impl ToPrettyTree for () {
    /// The unit value is the leaf `()`.
    fn to_pretty_tree(&self) -> (tree: PrettyTree)
        ensures
            tree@ == leaf_of(seq!['(', ')']),
    {
        proof {
            reveal_strlit("()");
        }
        let tree = PrettyTree::leaf("()");
        assert("()"@ =~= seq!['(', ')']);
        tree
    }
}

impl ToPrettyTree for bool {
    /// A truth value is the leaf `true` or the leaf `false`.
    fn to_pretty_tree(&self) -> (tree: PrettyTree)
        ensures
            tree@ == leaf_of(
                if *self {
                    seq!['t', 'r', 'u', 'e']
                } else {
                    seq!['f', 'a', 'l', 's', 'e']
                },
            ),
    {
        proof {
            reveal_strlit("true");
            reveal_strlit("false");
        }
        if *self {
            let tree = PrettyTree::leaf("true");
            assert("true"@ =~= seq!['t', 'r', 'u', 'e']);
            tree
        } else {
            let tree = PrettyTree::leaf("false");
            assert("false"@ =~= seq!['f', 'a', 'l', 's', 'e']);
            tree
        }
    }
}

impl ToPrettyTree for usize {
    /// A number is the leaf of its decimal digits.
    fn to_pretty_tree(&self) -> (tree: PrettyTree)
        ensures
            tree@ == leaf_of(decimal(*self as nat)),
    {
        PrettyTree::Value(decimal_text(*self as u64))
    }
}

impl ToPrettyTree for u8 {
    /// A number is the leaf of its decimal digits.
    fn to_pretty_tree(&self) -> (tree: PrettyTree)
        ensures
            tree@ == leaf_of(decimal(*self as nat)),
    {
        PrettyTree::Value(decimal_text(*self as u64))
    }
}

impl ToPrettyTree for u32 {
    /// A number is the leaf of its decimal digits.
    fn to_pretty_tree(&self) -> (tree: PrettyTree)
        ensures
            tree@ == leaf_of(decimal(*self as nat)),
    {
        PrettyTree::Value(decimal_text(*self as u64))
    }
}

impl ToPrettyTree for String {
    /// A string is the leaf of its quoted form.
    fn to_pretty_tree(&self) -> (tree: PrettyTree)
        ensures
            tree@ == leaf_of(debug_quoted(self@)),
    {
        PrettyTree::str(self.as_str())
    }
}

impl ToPrettyTree for &str {
    /// A string slice is the leaf of its quoted form.
    fn to_pretty_tree(&self) -> (tree: PrettyTree)
        ensures
            tree@ == leaf_of(debug_quoted(self@)),
    {
        PrettyTree::str(*self)
    }
}

impl<T: ToPrettyTree> ToPrettyTree for &T {
    /// A borrowed value turns into what the value itself turns into.
    fn to_pretty_tree(&self) -> (tree: PrettyTree)
        ensures
            turns_into::<T>(**self, tree@),
    {
        let tree = (*self).to_pretty_tree();
        tree
    }
}

impl<T: ToPrettyTree> ToPrettyTree for Option<T> {
    /// A value that is there turns into its own tree; one that is not is the leaf `None`.
    fn to_pretty_tree(&self) -> (tree: PrettyTree)
        ensures
            match *self {
                Some(value) => turns_into(value, tree@),
                None => tree@ == leaf_of(seq!['N', 'o', 'n', 'e']),
            },
    {
        match self {
            None => {
                proof {
                    reveal_strlit("None");
                }
                let tree = PrettyTree::leaf("None");
                assert("None"@ =~= seq!['N', 'o', 'n', 'e']);
                tree
            },
            Some(x) => {
                let tree = x.to_pretty_tree();
                tree
            },
        }
    }
}

/// The label of a vector of items whose type is called `item_type`.
pub open spec fn vec_label(item_type: Seq<char>) -> Seq<char> {
    seq!['V', 'e', 'c', '<'] + item_type + seq!['>']
}

/// What a vector stands for whose items' type is called `item_type` and whose items
/// stand for `items`: the items under the vector's label, and for a vector without
/// items the single leaf of that label with `[]` behind it.
pub open spec fn vec_node(item_type: Seq<char>, items: Seq<Node>) -> Node {
    if items.len() == 0 {
        leaf_of(key_text(vec_label(item_type), seq!['[', ']']))
    } else {
        Node::Branch { label: vec_label(item_type), children: items }
    }
}

/// The label of a tuple whose first two types are called `first_type` and `second_type`.
pub open spec fn tuple_label(first_type: Seq<char>, second_type: Seq<char>) -> Seq<char> {
    seq!['('] + first_type + seq![',', ' '] + second_type + seq![')']
}

/// Whether `node` stands for the entry of `key` with `value` in a map: a branch under
/// what the key writes of itself, with what the value turns into for its only child.
pub open spec fn is_entry<Key: Display, Value: ToPrettyTree>(
    key: Key,
    value: Value,
    node: Node,
) -> bool {
    node matches Node::Branch { label, children } && shown(&key, label) && children.len() == 1
        && turns_into(value, children[0])
}

/// The tree of a vector of `items` whose type is called `item_type`: the items under
/// the vector's label, and for a vector without items the single leaf of that label
/// with `[]` behind it.
pub fn vec_to_pretty_tree<T: ToPrettyTree>(item_type: &str, items: &[T]) -> (tree: PrettyTree)
    ensures
        items@.len() == 0 ==> tree@ == vec_node(item_type@, Seq::empty()),
        items@.len() > 0 ==> (tree@ matches Node::Branch { label, children } && turn_into(
            items@,
            children,
        ) && tree@ == vec_node(item_type@, children)),
{
    proof {
        reveal_strlit("Vec<");
        reveal_strlit(">");
        reveal_strlit("[]");
    }
    let mut name = String::from_str("Vec<");
    name.append(item_type);
    name.append(">");
    assert(name@ =~= vec_label(item_type@));
    let children = trees_of(items);
    if children.len() == 0 {
        let brackets = PrettyTree::leaf("[]");
        assert("[]"@ =~= seq!['[', ']']);
        return PrettyTree::key_value(name.as_str(), brackets);
    }
    PrettyTree::Branch(PrettyBranch { label: name, children })
}

/// The text of the label of a tuple.
pub(crate) fn tuple_name(first_type: &str, second_type: &str) -> (name: String)
    ensures
        name@ == tuple_label(first_type@, second_type@),
{
    proof {
        reveal_strlit("(");
        reveal_strlit(", ");
        reveal_strlit(")");
    }
    let mut name = String::from_str("(");
    name.append(first_type);
    name.append(", ");
    name.append(second_type);
    name.append(")");
    assert(name@ =~= tuple_label(first_type@, second_type@));
    name
}

/// The tree of a pair whose types are called `first_type` and `second_type`: what its
/// two values turn into, under the tuple's label.
pub fn pair_to_pretty_tree<A: ToPrettyTree, B: ToPrettyTree>(
    first_type: &str,
    second_type: &str,
    pair: &(A, B),
) -> (tree: PrettyTree)
    ensures
        tree@ matches Node::Branch { label, children } && label == tuple_label(
            first_type@,
            second_type@,
        ) && children.len() == 2 && turns_into(pair.0, children[0]) && turns_into(
            pair.1,
            children[1],
        ),
{
    let mut children: Vec<PrettyTree> = Vec::new();
    children.push(pair.0.to_pretty_tree());
    children.push(pair.1.to_pretty_tree());
    PrettyTree::Branch(PrettyBranch { label: tuple_name(first_type, second_type), children })
}

/// The tree of a triple whose first two types are called `first_type` and
/// `second_type`: what its three values turn into, under the label of those two types.
pub fn triple_to_pretty_tree<A: ToPrettyTree, B: ToPrettyTree, C: ToPrettyTree>(
    first_type: &str,
    second_type: &str,
    triple: &(A, B, C),
) -> (tree: PrettyTree)
    ensures
        tree@ matches Node::Branch { label, children } && label == tuple_label(
            first_type@,
            second_type@,
        ) && children.len() == 3 && turns_into(triple.0, children[0]) && turns_into(
            triple.1,
            children[1],
        ) && turns_into(triple.2, children[2]),
{
    let mut children: Vec<PrettyTree> = Vec::new();
    children.push(triple.0.to_pretty_tree());
    children.push(triple.1.to_pretty_tree());
    children.push(triple.2.to_pretty_tree());
    PrettyTree::Branch(PrettyBranch { label: tuple_name(first_type, second_type), children })
}

/// The tree of a map that is called `name` and holds `entries`: under the map's name
/// one branch for each entry, in the order given, the key above its value.
pub fn map_to_pretty_tree<Key: Display, Value: ToPrettyTree>(
    name: &str,
    entries: &[(Key, Value)],
) -> (tree: PrettyTree)
    ensures
        tree@ matches Node::Branch { label, children } && label == name@ && children.len()
            == entries@.len() && forall|i: int|
            0 <= i < entries@.len() ==> is_entry(
                (#[trigger] entries@[i]).0,
                entries@[i].1,
                children[i],
            ),
{
    let mut children: Vec<PrettyTree> = Vec::new();
    let mut i: usize = 0;
    while i < entries.len()
        invariant
            i <= entries.len(),
            children@.len() == i,
            forall|k: int|
                0 <= k < i ==> is_entry(
                    (#[trigger] entries@[k]).0,
                    entries@[k].1,
                    children@[k]@,
                ),
        decreases entries.len() - i,
    {
        let key = entries[i].0.to_string();
        let value = entries[i].1.to_pretty_tree();
        assert(shown(&entries@[i as int].0, key@));
        assert(turns_into(entries@[i as int].1, value@));
        let mut only: Vec<PrettyTree> = Vec::new();
        only.push(value);
        children.push(PrettyTree::Branch(PrettyBranch { label: key, children: only }));
        i += 1;
    }
    PrettyTree::Branch(PrettyBranch { label: String::from_str(name), children })
}

} // verus!
