//! The tree model: what can be drawn.

use crate::interface::{turn_into, turns_into, ToPrettyTree};
use crate::text::{debug_quoted, key_line, key_text, quoted, shown};
use core::fmt::Display;
use vstd::prelude::*;

verus! {

/// The mathematical value of a tree: what a [`PrettyTree`] stands for.
pub enum Node {
    /// Nothing at all.
    Empty,
    /// A leaf that is drawn as it stands.
    Value { text: Seq<char> },
    /// A leaf that is drawn in its quoted form.
    Quoted { text: Seq<char> },
    /// A label above its children, in their order.
    Branch { label: Seq<char>, children: Seq<Node> },
    /// Nodes in their order, listed where the fragment itself stands.
    Fragment { nodes: Seq<Node> },
}

/// A tree to draw. Its children are its own: a tree is built bottom-up and never changed.
#[derive(Debug)]
pub enum PrettyTree {
    Empty,
    /// A terminal leaf node.
    Value(String),
    /// A terminal leaf node, quoted when it is drawn.
    String(String),
    /// A branch node.
    Branch(PrettyBranch),
    /// A fragment node.
    Fragment(PrettyFragment),
}

/// A leaf's text on its own.
#[derive(Debug)]
pub struct PrettyValue(String);

/// A label with its children.
#[derive(Debug)]
pub struct PrettyBranch {
    pub label: String,
    pub children: Vec<PrettyTree>,
}

/// Nodes without a label of their own.
#[derive(Debug)]
pub struct PrettyFragment {
    pub nodes: Vec<PrettyTree>,
}

/// The values of `trees`, one for one.
pub open spec fn nodes_of(trees: Seq<PrettyTree>) -> Seq<Node>
    decreases trees,
{
    Seq::new(
        trees.len(),
        |i: int|
            if 0 <= i < trees.len() {
                trees[i].view()
            } else {
                Node::Empty
            },
    )
}

impl View for PrettyTree {
    type V = Node;

    open spec fn view(&self) -> Node
        decreases self,
    {
        match self {
            PrettyTree::Empty => Node::Empty,
            PrettyTree::Value(text) => Node::Value { text: text@ },
            PrettyTree::String(text) => Node::Quoted { text: text@ },
            PrettyTree::Branch(branch) => Node::Branch {
                label: branch.label@,
                children: nodes_of(branch.children@),
            },
            PrettyTree::Fragment(fragment) => Node::Fragment { nodes: nodes_of(fragment.nodes@) },
        }
    }
}

impl View for PrettyBranch {
    type V = Node;

    open spec fn view(&self) -> Node {
        Node::Branch { label: self.label@, children: nodes_of(self.children@) }
    }
}

impl View for PrettyFragment {
    type V = Node;

    open spec fn view(&self) -> Node {
        Node::Fragment { nodes: nodes_of(self.nodes@) }
    }
}

impl View for PrettyValue {
    type V = Seq<char>;

    closed spec fn view(&self) -> Seq<char> {
        self.0@
    }
}

/// The branch `branch` with `child` behind its children. A node that is no branch
/// stays as it is.
pub open spec fn grown(branch: Node, child: Node) -> Node {
    match branch {
        Node::Branch { label, children } => Node::Branch { label, children: children.push(child) },
        other => other,
    }
}

/// The branch `branch` after the first `upto` of `children` were given to it one by one.
pub open spec fn grown_by(branch: Node, children: Seq<Node>, upto: nat) -> Node
    decreases upto,
{
    if upto == 0 || upto > children.len() {
        branch
    } else {
        grown(grown_by(branch, children, (upto - 1) as nat), children[upto - 1])
    }
}

/// A copy of every tree of `trees`, in the same order.
fn clone_trees(trees: &Vec<PrettyTree>) -> (copy: Vec<PrettyTree>)
    ensures
        nodes_of(copy@) == nodes_of(trees@),
    decreases trees,
{
    let mut copy: Vec<PrettyTree> = Vec::new();
    let mut i: usize = 0;
    while i < trees.len()
        invariant
            i <= trees.len(),
            copy@.len() == i,
            forall|k: int| 0 <= k < i ==> (#[trigger] copy@[k])@ == trees@[k]@,
        decreases trees.len() - i,
    {
        copy.push(trees[i].clone());
        i += 1;
    }
    assert(nodes_of(copy@) =~= nodes_of(trees@));
    copy
}

impl Clone for PrettyTree {
    fn clone(&self) -> (copy: Self)
        ensures
            copy@ == self@,
        decreases self,
    {
        match self {
            PrettyTree::Empty => PrettyTree::Empty,
            PrettyTree::Value(text) => PrettyTree::Value(text.clone()),
            PrettyTree::String(text) => PrettyTree::String(text.clone()),
            PrettyTree::Branch(branch) => PrettyTree::Branch(branch.clone()),
            PrettyTree::Fragment(fragment) => PrettyTree::Fragment(fragment.clone()),
        }
    }
}

impl Clone for PrettyBranch {
    fn clone(&self) -> (copy: Self)
        ensures
            copy@ == self@,
        decreases self,
    {
        PrettyBranch { label: self.label.clone(), children: clone_trees(&self.children) }
    }
}

impl Clone for PrettyFragment {
    fn clone(&self) -> (copy: Self)
        ensures
            copy@ == self@,
        decreases self,
    {
        PrettyFragment { nodes: clone_trees(&self.nodes) }
    }
}

impl Clone for PrettyValue {
    fn clone(&self) -> (copy: Self)
        ensures
            copy@ == self@,
    {
        PrettyValue(self.0.clone())
    }
}

impl Default for PrettyTree {
    fn default() -> (tree: Self)
        ensures
            tree@ == Node::Empty,
    {
        PrettyTree::Empty
    }
}

/// What a value stands for under a key: a leaf's text goes behind the key on one line,
/// a quoted leaf's in its quoted form, and any other node becomes the only child of a
/// branch that has the key for its label.
pub open spec fn keyed(key: Seq<char>, value: Node) -> Node {
    match value {
        Node::Value { text } => Node::Value { text: key_text(key, text) },
        Node::Quoted { text } => Node::Value { text: key_text(key, debug_quoted(text)) },
        other => Node::Branch { label: key, children: seq![other] },
    }
}

/// Whether `node` is the value of a tree that a copy of `value` may be turned into.
pub open spec fn copy_turns_into<T: ToPrettyTree + Clone>(value: T, node: Node) -> bool {
    exists|copy: T| #[trigger] cloned(value, copy) && turns_into(copy, node)
}

/// Whether `nodes` are the values of trees that copies of `values` may be turned into,
/// one for one.
pub open spec fn copies_turn_into<T: ToPrettyTree + Clone>(
    values: Seq<&T>,
    nodes: Seq<Node>,
) -> bool {
    &&& nodes.len() == values.len()
    &&& forall|i: int|
        0 <= i < values.len() ==> copy_turns_into(*#[trigger] values[i], nodes[i])
}

/// The trees that `values` turn into, in their order.
pub fn trees_of<T: ToPrettyTree>(values: &[T]) -> (trees: Vec<PrettyTree>)
    ensures
        turn_into(values@, nodes_of(trees@)),
{
    let mut trees: Vec<PrettyTree> = Vec::new();
    let mut i: usize = 0;
    while i < values.len()
        invariant
            i <= values.len(),
            trees@.len() == i,
            forall|k: int| 0 <= k < i ==> turns_into(#[trigger] values@[k], trees@[k]@),
        decreases values.len() - i,
    {
        let tree = values[i].to_pretty_tree();
        trees.push(tree);
        i += 1;
    }
    trees
}

impl PrettyTree {
    /// The tree that draws nothing.
    pub fn empty() -> (tree: Self)
        ensures
            tree@ == Node::Empty,
    {
        Self::Empty
    }

    /// A leaf with the text that `value` writes of itself.
    pub fn value<T: Display + ?Sized>(value: &T) -> (tree: Self)
        ensures
            tree@ matches Node::Value { text } && shown(value, text),
    {
        Self::Value(value.to_string())
    }

    /// A leaf with the quoted form of the text that `value` writes of itself.
    pub fn string<T: Display + ?Sized>(value: &T) -> (tree: Self)
        ensures
            exists|written: Seq<char>|
                shown(value, written) && tree@ == (Node::Value { text: debug_quoted(written) }),
    {
        let written = value.to_string();
        assert(shown(value, written@));
        Self::Value(quoted(written.as_str()))
    }

    /// A leaf with the quoted form of `value`.
    pub fn str(value: &str) -> (tree: Self)
        ensures
            tree@ == (Node::Value { text: debug_quoted(value@) }),
    {
        Self::Value(quoted(value))
    }

    /// A leaf with the text `value`, as it stands.
    pub fn leaf(value: &str) -> (tree: Self)
        ensures
            tree@ == (Node::Value { text: value@ }),
    {
        Self::Value(String::from_str(value))
    }

    /// A fragment of the trees that `list` turns into, in their order.
    pub fn fragment<T: ToPrettyTree>(list: Vec<T>) -> (tree: Self)
        ensures
            tree@ matches Node::Fragment { nodes } && turn_into(list@, nodes),
    {
        Self::Fragment(PrettyFragment { nodes: trees_of(list.as_slice()) })
    }

    /// A branch under `label` of the trees that `children` turn into, in their order.
    pub fn branch_of<Type: ToPrettyTree>(label: &str, children: Vec<Type>) -> (tree: Self)
        ensures
            tree@ matches Node::Branch { label: above, children: below } && above == label@
                && turn_into(children@, below),
    {
        Self::Branch(
            PrettyBranch {
                label: String::from_str(label),
                children: trees_of(children.as_slice()),
            },
        )
    }

    /// What `tree` stands for under `key`: see [`keyed`].
    pub fn keyed(key: &str, tree: PrettyTree) -> (entry: Self)
        ensures
            entry@ == keyed(key@, tree@),
    {
        match tree {
            PrettyTree::Value(text) => PrettyTree::Value(key_line(key, text.as_str())),
            PrettyTree::String(text) => {
                let text = quoted(text.as_str());
                PrettyTree::Value(key_line(key, text.as_str()))
            },
            tree => {
                let ghost node = tree@;
                let mut children: Vec<PrettyTree> = Vec::new();
                children.push(tree);
                assert(nodes_of(children@) =~= seq![node]);
                Self::Branch(PrettyBranch { label: String::from_str(key), children })
            },
        }
    }

    /// The tree that `value` turns into, under `key`: a leaf on the key's own line, any
    /// other tree as the only child of a branch.
    pub fn key_value<T: ToPrettyTree>(key: &str, value: T) -> (tree: Self)
        ensures
            exists|node: Node| turns_into(value, node) && tree@ == keyed(key@, node),
    {
        let tree = value.to_pretty_tree();
        assert(turns_into(value, tree@));
        Self::keyed(key, tree)
    }

    /// The leaf of `value`.
    pub fn some_value(value: PrettyValue) -> (tree: Self)
        ensures
            tree@ == (Node::Value { text: value@ }),
    {
        Self::Value(value.0)
    }

    /// The tree of `branch`.
    pub fn some_branch(branch: PrettyBranch) -> (tree: Self)
        ensures
            tree@ == branch@,
    {
        Self::Branch(branch)
    }

    /// The tree of `fragment`.
    pub fn some_fragment(fragment: PrettyFragment) -> (tree: Self)
        ensures
            tree@ == fragment@,
    {
        Self::Fragment(fragment)
    }
}

impl PrettyValue {
    /// The text `value`, as it stands.
    pub fn from_str(value: &str) -> (text: Self)
        ensures
            text@ == value@,
    {
        Self(String::from_str(value))
    }

    /// The text that `value` writes of itself.
    pub fn from_string<T: Display + ?Sized>(value: &T) -> (text: Self)
        ensures
            shown(value, text@),
    {
        Self(value.to_string())
    }
}

impl PrettyBranch {
    /// The branch under `label` that has no child yet.
    pub fn new(label: &str) -> (branch: Self)
        ensures
            branch@ == (Node::Branch { label: label@, children: Seq::empty() }),
    {
        let branch = Self { label: String::from_str(label), children: Vec::new() };
        assert(nodes_of(branch.children@) =~= Seq::<Node>::empty());
        branch
    }

    /// A copy of this branch with `tree` behind its children.
    fn grown(&self, tree: PrettyTree) -> (branch: Self)
        ensures
            branch@ == grown(self@, tree@),
    {
        let mut copy = self.clone();
        let ghost had = copy.children@;
        copy.children.push(tree);
        assert(nodes_of(copy.children@) =~= nodes_of(had).push(tree@));
        copy
    }

    /// A copy of this branch with `trees` behind its children.
    fn grown_by(&self, trees: Vec<PrettyTree>) -> (branch: Self)
        ensures
            branch@ == (Node::Branch {
                label: self.label@,
                children: nodes_of(self.children@) + nodes_of(trees@),
            }),
    {
        let mut copy = self.clone();
        let mut trees = trees;
        let ghost had = copy.children@;
        let ghost more = trees@;
        copy.children.append(&mut trees);
        assert(nodes_of(copy.children@) =~= nodes_of(had) + nodes_of(more));
        copy
    }

    /// This branch with one more child, the tree that `child` turns into. The branch
    /// itself stays as it is.
    pub fn with_child<T: ToPrettyTree>(&self, child: T) -> (branch: Self)
        ensures
            exists|node: Node| turns_into(child, node) && branch@ == grown(self@, node),
    {
        let tree = child.to_pretty_tree();
        assert(turns_into(child, tree@));
        self.grown(tree)
    }

    /// As [`PrettyBranch::with_child`], for a borrowed child.
    pub fn with_child_ref<T: ToPrettyTree>(&self, child: &T) -> (branch: Self)
        ensures
            exists|node: Node| turns_into(*child, node) && branch@ == grown(self@, node),
    {
        let tree = child.to_pretty_tree();
        assert(turns_into(*child, tree@));
        self.grown(tree)
    }

    /// This branch with one more child: the tree that `child` turns into, under `key`.
    pub fn with_field<T: ToPrettyTree>(&self, key: &str, child: T) -> (branch: Self)
        ensures
            exists|node: Node|
                turns_into(child, node) && branch@ == grown(self@, keyed(key@, node)),
    {
        let tree = child.to_pretty_tree();
        assert(turns_into(child, tree@));
        self.grown(PrettyTree::keyed(key, tree))
    }

    /// As [`PrettyBranch::with_field`], for a borrowed child.
    pub fn with_field_ref<T: ToPrettyTree>(&self, key: &str, child: &T) -> (branch: Self)
        ensures
            exists|node: Node|
                turns_into(*child, node) && branch@ == grown(self@, keyed(key@, node)),
    {
        let tree = child.to_pretty_tree();
        assert(turns_into(*child, tree@));
        self.grown(PrettyTree::keyed(key, tree))
    }

    /// This branch with more children: the trees that `children` turn into, in their
    /// order, behind those it has.
    pub fn with_children<T: ToPrettyTree>(&self, children: Vec<T>) -> (branch: Self)
        ensures
            exists|nodes: Seq<Node>|
                turn_into(children@, nodes) && branch@ == (Node::Branch {
                    label: self.label@,
                    children: nodes_of(self.children@) + nodes,
                }),
    {
        let trees = trees_of(children.as_slice());
        assert(turn_into(children@, nodes_of(trees@)));
        self.grown_by(trees)
    }

    /// As [`PrettyBranch::with_children`], for a borrowed slice of children.
    pub fn with_children_slice<T: ToPrettyTree>(&self, children: &[T]) -> (branch: Self)
        ensures
            exists|nodes: Seq<Node>|
                turn_into(children@, nodes) && branch@ == (Node::Branch {
                    label: self.label@,
                    children: nodes_of(self.children@) + nodes,
                }),
    {
        let trees = trees_of(children);
        assert(turn_into(children@, nodes_of(trees@)));
        self.grown_by(trees)
    }

    /// This branch with more children: the trees that copies of `children` turn into, in
    /// their order, behind those it has.
    pub fn with_children_iter<'a, T: ToPrettyTree + Clone>(&self, children: Vec<&'a T>) -> (branch:
        Self)
        ensures
            exists|nodes: Seq<Node>|
                copies_turn_into(children@, nodes) && branch@ == (Node::Branch {
                    label: self.label@,
                    children: nodes_of(self.children@) + nodes,
                }),
    {
        let mut trees: Vec<PrettyTree> = Vec::new();
        let mut i: usize = 0;
        while i < children.len()
            invariant
                i <= children.len(),
                trees@.len() == i,
                forall|k: int|
                    0 <= k < i ==> copy_turns_into(*#[trigger] children@[k], trees@[k]@),
            decreases children.len() - i,
        {
            let copy = children[i].clone();
            let tree = copy.to_pretty_tree();
            assert(cloned(*children@[i as int], copy) && turns_into(copy, tree@));
            trees.push(tree);
            i += 1;
        }
        assert(copies_turn_into(children@, nodes_of(trees@)));
        self.grown_by(trees)
    }

    /// The branch under the text that `label` writes of itself, of the trees that
    /// `children` turn into.
    pub fn from_iter<Label: Display + ?Sized, Child: ToPrettyTree>(
        label: &Label,
        children: Vec<Child>,
    ) -> (branch: Self)
        ensures
            branch@ matches Node::Branch { label: above, children: below } && shown(label, above)
                && turn_into(children@, below),
    {
        PrettyBranch { label: label.to_string(), children: trees_of(children.as_slice()) }
    }
}

impl PrettyFragment {
    /// The fragment of the trees that `list` turns into, in their order.
    pub fn from_iter<Value: ToPrettyTree>(list: Vec<Value>) -> (fragment: Self)
        ensures
            fragment@ matches Node::Fragment { nodes } && turn_into(list@, nodes),
    {
        Self { nodes: trees_of(list.as_slice()) }
    }
}

} // verus!
