//! JSON values that can be drawn.

use crate::data::{nodes_of, Node, PrettyBranch, PrettyTree};
use crate::interface::{leaf_of, tuple_label, tuple_name};
use crate::text::debug_quoted;
use vstd::prelude::*;

verus! {

/// A JSON value, held as plain values: a number as it is written, an object as its
/// entries in their order.
#[derive(Debug)]
pub enum JsonValue {
    Null,
    Bool(bool),
    Number(String),
    String(String),
    Array(Vec<JsonValue>),
    Object(Vec<(String, JsonValue)>),
}

/// `kind` with `text` in round brackets behind it.
pub open spec fn tagged(kind: Seq<char>, text: Seq<char>) -> Seq<char> {
    kind + seq!['('] + text + seq![')']
}

/// The word for a truth value.
pub open spec fn truth(flag: bool) -> Seq<char> {
    if flag {
        seq!['t', 'r', 'u', 'e']
    } else {
        seq!['f', 'a', 'l', 's', 'e']
    }
}

/// What the JSON values `items` stand for, one for one.
pub open spec fn json_items(items: Seq<JsonValue>, entry_label: Seq<char>) -> Seq<Node>
    decreases items,
{
    Seq::new(
        items.len(),
        |i: int|
            if 0 <= i < items.len() {
                json_node(items[i], entry_label)
            } else {
                Node::Empty
            },
    )
}

/// What the entries of a JSON object stand for, one for one: each a branch labelled
/// `entry_label` that holds the quoted key and the value.
pub open spec fn json_entries(entries: Seq<(String, JsonValue)>, entry_label: Seq<char>) -> Seq<
    Node,
>
    decreases entries,
{
    Seq::new(
        entries.len(),
        |i: int|
            if 0 <= i < entries.len() {
                Node::Branch {
                    label: entry_label,
                    children: seq![
                        leaf_of(debug_quoted(entries[i].0@)),
                        json_node(entries[i].1, entry_label),
                    ],
                }
            } else {
                Node::Empty
            },
    )
}

/// What a JSON value stands for.
///
/// A scalar is one quoted leaf that names its kind: `"Null"`, `"Bool(true)"`,
/// `"Number(1.5)"`, `"String(text)"`. An array is a branch `Array` of its items. An
/// object is a branch `Object` with one branch for each entry, labelled `entry_label`,
/// that holds the quoted key and the value.
pub open spec fn json_node(value: JsonValue, entry_label: Seq<char>) -> Node
    decreases value,
{
    match value {
        JsonValue::Null => leaf_of(debug_quoted(seq!['N', 'u', 'l', 'l'])),
        JsonValue::Bool(flag) => leaf_of(
            debug_quoted(tagged(seq!['B', 'o', 'o', 'l'], truth(flag))),
        ),
        JsonValue::Number(text) => leaf_of(
            debug_quoted(tagged(seq!['N', 'u', 'm', 'b', 'e', 'r'], text@)),
        ),
        JsonValue::String(text) => leaf_of(
            debug_quoted(tagged(seq!['S', 't', 'r', 'i', 'n', 'g'], text@)),
        ),
        JsonValue::Array(items) => Node::Branch {
            label: seq!['A', 'r', 'r', 'a', 'y'],
            children: json_items(items@, entry_label),
        },
        JsonValue::Object(entries) => Node::Branch {
            label: seq!['O', 'b', 'j', 'e', 'c', 't'],
            children: json_entries(entries@, entry_label),
        },
    }
}

/// The quoted leaf of `text` tagged with `kind`.
fn tagged_leaf(kind: &str, text: &str) -> (tree: PrettyTree)
    ensures
        tree@ == leaf_of(debug_quoted(tagged(kind@, text@))),
{
    proof {
        reveal_strlit("(");
        reveal_strlit(")");
    }
    let mut line = String::from_str(kind);
    line.append("(");
    line.append(text);
    line.append(")");
    assert(line@ =~= tagged(kind@, text@));
    PrettyTree::str(line.as_str())
}

impl JsonValue {
    /// The tree of this value. The entries of its objects are labelled as pairs of a key
    /// and a value whose types are called `key_type` and `value_type`.
    pub fn to_pretty_tree(&self, key_type: &str, value_type: &str) -> (tree: PrettyTree)
        ensures
            tree@ == json_node(*self, tuple_label(key_type@, value_type@)),
    {
        let entry_label = tuple_name(key_type, value_type);
        self.tree_under(entry_label.as_str())
    }

    /// The tree of this value, the entries of its objects under `entry_label`.
    fn tree_under(&self, entry_label: &str) -> (tree: PrettyTree)
        ensures
            tree@ == json_node(*self, entry_label@),
        decreases self,
    {
        proof {
            reveal_strlit("Null");
            reveal_strlit("Bool");
            reveal_strlit("Number");
            reveal_strlit("String");
            reveal_strlit("Array");
            reveal_strlit("Object");
            reveal_strlit("true");
            reveal_strlit("false");
            assert("Null"@ =~= seq!['N', 'u', 'l', 'l']);
            assert("Bool"@ =~= seq!['B', 'o', 'o', 'l']);
            assert("Number"@ =~= seq!['N', 'u', 'm', 'b', 'e', 'r']);
            assert("String"@ =~= seq!['S', 't', 'r', 'i', 'n', 'g']);
            assert("Array"@ =~= seq!['A', 'r', 'r', 'a', 'y']);
            assert("Object"@ =~= seq!['O', 'b', 'j', 'e', 'c', 't']);
            assert("true"@ =~= truth(true));
            assert("false"@ =~= truth(false));
        }
        match self {
            JsonValue::Null => PrettyTree::str("Null"),
            JsonValue::Bool(flag) => tagged_leaf(
                "Bool",
                if *flag {
                    "true"
                } else {
                    "false"
                },
            ),
            JsonValue::Number(text) => tagged_leaf("Number", text.as_str()),
            JsonValue::String(text) => tagged_leaf("String", text.as_str()),
            JsonValue::Array(items) => PrettyTree::Branch(
                PrettyBranch {
                    label: String::from_str("Array"),
                    children: item_trees(items, entry_label),
                },
            ),
            JsonValue::Object(entries) => PrettyTree::Branch(
                PrettyBranch {
                    label: String::from_str("Object"),
                    children: entry_trees(entries, entry_label),
                },
            ),
        }
    }
}

/// The trees of the items of an array.
fn item_trees(items: &Vec<JsonValue>, entry_label: &str) -> (trees: Vec<PrettyTree>)
    ensures
        nodes_of(trees@) == json_items(items@, entry_label@),
    decreases items,
{
    let mut trees: Vec<PrettyTree> = Vec::new();
    let mut i: usize = 0;
    while i < items.len()
        invariant
            i <= items.len(),
            trees@.len() == i,
            forall|k: int|
                0 <= k < i ==> (#[trigger] trees@[k])@ == json_node(items@[k], entry_label@),
        decreases items.len() - i,
    {
        trees.push(items[i].tree_under(entry_label));
        i += 1;
    }
    assert(nodes_of(trees@) =~= json_items(items@, entry_label@));
    trees
}

/// The trees of the entries of an object.
fn entry_trees(entries: &Vec<(String, JsonValue)>, entry_label: &str) -> (trees: Vec<PrettyTree>)
    ensures
        nodes_of(trees@) == json_entries(entries@, entry_label@),
    decreases entries,
{
    let mut trees: Vec<PrettyTree> = Vec::new();
    let mut i: usize = 0;
    while i < entries.len()
        invariant
            i <= entries.len(),
            trees@.len() == i,
            forall|k: int|
                0 <= k < i ==> (#[trigger] trees@[k])@ == json_entries(
                    entries@,
                    entry_label@,
                )[k],
        decreases entries.len() - i,
    {
        let mut pair: Vec<PrettyTree> = Vec::new();
        pair.push(PrettyTree::str(entries[i].0.as_str()));
        pair.push(entries[i].1.tree_under(entry_label));
        let entry = PrettyTree::Branch(
            PrettyBranch { label: String::from_str(entry_label), children: pair },
        );
        assert(entry@->children =~= seq![
            leaf_of(debug_quoted(entries@[i as int].0@)),
            json_node(entries@[i as int].1, entry_label@),
        ]);
        trees.push(entry);
        i += 1;
    }
    assert(nodes_of(trees@) =~= json_entries(entries@, entry_label@));
    trees
}

} // verus!
