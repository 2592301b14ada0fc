//! What holds of every drawing.

use crate::data::{grown, grown_by, Node};
use crate::formatter::{drawn, FormatterStyle, TreeColumn};
use crate::interface::{vec_label, vec_node};
use crate::layout::{
    descend, glyph, gutter, leading, lemma_rows_nonempty, list_rows, list_text, listing,
    marker_at, page, render_text, row_text, rows, settled, Row,
};
use crate::paint::strips_to;
use vstd::prelude::*;

verus! {

/// The number of line breaks in `text`.
pub open spec fn line_breaks(text: Seq<char>) -> nat
    decreases text.len(),
{
    if text.len() == 0 {
        0
    } else {
        line_breaks(text.drop_last()) + if text.last() == '\n' {
            1nat
        } else {
            0nat
        }
    }
}

/// The number of lines of `text`: one more than it has line breaks, so that the text
/// without a character is one line without a character.
pub open spec fn line_count(text: Seq<char>) -> nat {
    line_breaks(text) + 1
}

/// The line breaks that the texts of `rows` hold themselves.
pub open spec fn breaks_within(rows: Seq<Row>) -> nat
    decreases rows.len(),
{
    if rows.len() == 0 {
        0
    } else {
        breaks_within(rows.drop_last()) + line_breaks(row_text(rows.last()))
    }
}

/// The number of rows that `node` is drawn in: one for a leaf, for a label, and for a
/// node that draws nothing.
pub open spec fn row_count(node: Node) -> nat
    decreases node, 0nat,
{
    match node {
        Node::Empty => 1,
        Node::Value { .. } => 1,
        Node::Quoted { .. } => 1,
        Node::Branch { children, .. } => 1 + rows_in(children, children.len()),
        Node::Fragment { nodes } => if nodes.len() == 0 {
            1
        } else {
            rows_in(nodes, nodes.len())
        },
    }
}

/// The number of rows that the first `upto` of `nodes` are drawn in.
pub open spec fn rows_in(nodes: Seq<Node>, upto: nat) -> nat
    decreases nodes, upto,
{
    if upto == 0 || upto > nodes.len() {
        0
    } else {
        rows_in(nodes, (upto - 1) as nat) + row_count(nodes[upto - 1])
    }
}

/// The number of leaves of `node`, the nodes of its fragments counted as its own.
pub open spec fn leaf_count(node: Node) -> nat
    decreases node, 0nat,
{
    match node {
        Node::Empty => 0,
        Node::Value { .. } => 1,
        Node::Quoted { .. } => 1,
        Node::Branch { children, .. } => leaves_in(children, children.len()),
        Node::Fragment { nodes } => leaves_in(nodes, nodes.len()),
    }
}

/// The number of leaves of the first `upto` of `nodes`.
pub open spec fn leaves_in(nodes: Seq<Node>, upto: nat) -> nat
    decreases nodes, upto,
{
    if upto == 0 || upto > nodes.len() {
        0
    } else {
        leaves_in(nodes, (upto - 1) as nat) + leaf_count(nodes[upto - 1])
    }
}

/// Whether `node` is a leaf, or a fragment that holds at least one node and only such
/// nodes: a tree without a label and without a node that draws nothing.
pub open spec fn only_leaves(node: Node) -> bool
    decreases node, 0nat,
{
    match node {
        Node::Empty => false,
        Node::Value { .. } => true,
        Node::Quoted { .. } => true,
        Node::Branch { .. } => false,
        Node::Fragment { nodes } => nodes.len() >= 1 && only_leaves_in(nodes, nodes.len()),
    }
}

/// Whether each of the first `upto` of `nodes` is [`only_leaves`].
pub open spec fn only_leaves_in(nodes: Seq<Node>, upto: nat) -> bool
    decreases nodes, upto,
{
    if upto == 0 || upto > nodes.len() {
        true
    } else {
        only_leaves_in(nodes, (upto - 1) as nat) && only_leaves(nodes[upto - 1])
    }
}

/// The line breaks of two texts in a row are those of the one and those of the other.
pub proof fn lemma_line_breaks_concat(a: Seq<char>, b: Seq<char>)
    ensures
        line_breaks(a + b) == line_breaks(a) + line_breaks(b),
    decreases b.len(),
{
    if b.len() == 0 {
        assert(a + b =~= a);
    } else {
        lemma_line_breaks_concat(a, b.drop_last());
        assert((a + b).drop_last() =~= a + b.drop_last());
    }
}

/// A drawing has one line for each of its rows, and one more for each line break that
/// a row's own text holds.
pub proof fn lemma_lines_of_page(rows: Seq<Row>)
    requires
        rows.len() >= 1,
    ensures
        line_count(page(rows)) == rows.len() + breaks_within(rows),
    decreases rows.len(),
{
    if rows.len() == 1 {
        assert(breaks_within(rows.drop_last()) == 0);
    } else {
        let gap = seq!['\n'];
        lemma_lines_of_page(rows.drop_last());
        lemma_line_breaks_concat(page(rows.drop_last()), gap);
        lemma_line_breaks_concat(page(rows.drop_last()) + gap, row_text(rows.last()));
        assert(line_breaks(gap.drop_last()) == 0);
        assert(line_breaks(gap) == 1);
    }
}

/// Every node is drawn in as many rows as [`row_count`] says, whatever the columns.
pub proof fn lemma_row_count(node: Node, columns: Seq<TreeColumn>)
    ensures
        rows(node, columns).len() == row_count(node),
    decreases node, 0nat,
{
    match node {
        Node::Branch { children, .. } => {
            lemma_rows_in(children, columns, TreeColumn::DownAndRight, children.len());
        },
        Node::Fragment { nodes } => {
            if nodes.len() == 1 {
                lemma_row_count(nodes[0], columns);
                assert(rows_in(nodes, 0) == 0);
            } else if nodes.len() >= 2 {
                lemma_rows_in(nodes, columns, TreeColumn::DownAndRight, nodes.len());
            }
        },
        _ => {},
    }
}

/// A listing has as many rows as [`rows_in`] says.
pub proof fn lemma_rows_in(nodes: Seq<Node>, columns: Seq<TreeColumn>, head: TreeColumn, upto: nat)
    ensures
        listing(nodes, columns, head, upto).len() == rows_in(nodes, upto),
    decreases nodes, upto,
{
    if 1 <= upto <= nodes.len() {
        lemma_rows_in(nodes, columns, head, (upto - 1) as nat);
        lemma_row_count(
            nodes[upto - 1],
            descend(columns, marker_at(nodes.len() as int, upto - 1, head)),
        );
    }
}

proof fn lemma_leaves_have_rows(node: Node)
    requires
        only_leaves(node),
    ensures
        row_count(node) == leaf_count(node),
    decreases node, 0nat,
{
    match node {
        Node::Fragment { nodes } => {
            lemma_leaves_have_rows_in(nodes, nodes.len());
        },
        _ => {},
    }
}

proof fn lemma_leaves_have_rows_in(nodes: Seq<Node>, upto: nat)
    requires
        only_leaves_in(nodes, upto),
    ensures
        rows_in(nodes, upto) == leaves_in(nodes, upto),
    decreases nodes, upto,
{
    if 1 <= upto <= nodes.len() {
        lemma_leaves_have_rows_in(nodes, (upto - 1) as nat);
        lemma_leaves_have_rows(nodes[upto - 1]);
    }
}

/// One line for each leaf.
///
/// A tree of leaves, gathered in fragments that each hold at least one node, is drawn
/// in as many lines as it has leaves, where no leaf's text holds a line break itself.
/// A fragment adds no line of its own. (A label has a line of its own, and so has a
/// node that draws nothing where it stands in a list: such trees have more lines than
/// leaves.)
pub proof fn lemma_one_line_per_leaf(node: Node, columns: Seq<TreeColumn>)
    requires
        only_leaves(node),
        breaks_within(rows(node, columns)) == 0,
    ensures
        line_count(render_text(node, columns)) == leaf_count(node),
{
    lemma_rows_nonempty(node, columns);
    lemma_lines_of_page(rows(node, columns));
    lemma_row_count(node, columns);
    lemma_leaves_have_rows(node);
}

/// Whether `row` shows, in the column `at`, the end of a level: its corner, or the
/// blank beneath it. A row without a character shows nothing at all.
pub open spec fn closed_at(row: Row, at: int) -> bool {
    match row {
        Row::Blank => true,
        Row::Line { columns, .. } => at < columns.len() && (columns[at]
            == TreeColumn::DownThenRight || columns[at] == TreeColumn::Empty),
    }
}

proof fn lemma_closed_stays_closed(node: Node, columns: Seq<TreeColumn>, at: int, i: int)
    requires
        0 <= at < columns.len(),
        columns[at] == TreeColumn::DownThenRight || columns[at] == TreeColumn::Empty,
        0 <= i < rows(node, columns).len(),
    ensures
        closed_at(rows(node, columns)[i], at),
    decreases node, 0nat,
{
    match node {
        Node::Branch { children, .. } => {
            if i > 0 {
                lemma_closed_stays_closed_in(
                    children,
                    columns,
                    TreeColumn::DownAndRight,
                    children.len(),
                    at,
                    i - 1,
                );
            }
        },
        Node::Fragment { nodes } => {
            if nodes.len() == 1 {
                lemma_closed_stays_closed(nodes[0], columns, at, i);
            } else if nodes.len() >= 2 {
                lemma_closed_stays_closed_in(
                    nodes,
                    columns,
                    TreeColumn::DownAndRight,
                    nodes.len(),
                    at,
                    i,
                );
            }
        },
        _ => {},
    }
}

proof fn lemma_closed_stays_closed_in(
    nodes: Seq<Node>,
    columns: Seq<TreeColumn>,
    head: TreeColumn,
    upto: nat,
    at: int,
    i: int,
)
    requires
        0 <= at < columns.len(),
        columns[at] == TreeColumn::DownThenRight || columns[at] == TreeColumn::Empty,
        0 <= i < listing(nodes, columns, head, upto).len(),
    ensures
        closed_at(listing(nodes, columns, head, upto)[i], at),
    decreases nodes, upto,
{
    if 1 <= upto <= nodes.len() {
        let above = listing(nodes, columns, head, (upto - 1) as nat);
        let beneath = descend(columns, marker_at(nodes.len() as int, upto - 1, head));
        if i < above.len() {
            lemma_closed_stays_closed_in(nodes, columns, head, (upto - 1) as nat, at, i);
        } else {
            assert(beneath[at] == settled(columns[at]));
            lemma_closed_stays_closed(nodes[upto - 1], beneath, at, i - above.len());
        }
    }
}

/// The glyph of column `at` stands three characters behind the one before it.
pub proof fn lemma_gutter_glyph(columns: Seq<TreeColumn>, at: int)
    requires
        0 <= at < columns.len(),
    ensures
        gutter(columns).len() == 3 * columns.len() - 2,
        gutter(columns)[3 * at] == glyph(columns[at]),
    decreases columns.len(),
{
    if columns.len() >= 2 {
        lemma_gutter_glyph(columns.drop_last(), if at < columns.len() - 1 { at } else { 0 });
    }
}

/// No bar beneath an only child.
///
/// Where a branch has exactly one child, every row of that child and of what stands
/// beneath it shows, in the column that the branch opens, a corner or a blank: the
/// corner on the child's own row and a blank on the rows beneath it. A column takes
/// three characters of a row's text, so the character that stands for this column is
/// never the vertical bar.
pub proof fn lemma_only_child_ends_its_column(
    label: Seq<char>,
    child: Node,
    columns: Seq<TreeColumn>,
    i: int,
)
    requires
        1 <= i < rows(Node::Branch { label, children: seq![child] }, columns).len(),
    ensures
        ({
            let row = rows(Node::Branch { label, children: seq![child] }, columns)[i];
            &&& closed_at(row, columns.len() as int)
            &&& row is Line ==> row_text(row)[3 * (columns.len() as int)] != '│'
        }),
{
    let kids = seq![child];
    let beneath = descend(columns, TreeColumn::DownThenRight);
    let at = columns.len() as int;
    assert(listing(kids, columns, TreeColumn::DownAndRight, 0) =~= Seq::<Row>::empty());
    assert(listing(kids, columns, TreeColumn::DownAndRight, 1) =~= rows(child, beneath));
    lemma_closed_stays_closed(child, beneath, at, i - 1);
    match rows(Node::Branch { label, children: kids }, columns)[i] {
        Row::Line { columns: under, text } => {
            lemma_gutter_glyph(under, at);
        },
        Row::Blank => {},
    }
}

/// A fragment of one node is that node.
///
/// A fragment that holds exactly one node is drawn, under any columns, in the very rows
/// and the very text of that node drawn under the same columns.
pub proof fn lemma_fragment_of_one(node: Node, columns: Seq<TreeColumn>)
    ensures
        rows(Node::Fragment { nodes: seq![node] }, columns) == rows(node, columns),
        render_text(Node::Fragment { nodes: seq![node] }, columns) == render_text(node, columns),
{
}

/// A vector without items is one leaf.
///
/// What a vector without items stands for is a single leaf, no branch: it is drawn in
/// one row, and from the root its text is the vector's label, a colon, a space and `[]`.
pub proof fn lemma_empty_vector_is_one_leaf(item_type: Seq<char>, columns: Seq<TreeColumn>)
    ensures
        vec_node(item_type, Seq::empty()) is Value,
        rows(vec_node(item_type, Seq::empty()), columns).len() == 1,
        render_text(vec_node(item_type, Seq::empty()), Seq::empty()) == vec_label(item_type)
            + seq![':', ' ', '[', ']'],
{
    let node = vec_node(item_type, Seq::empty());
    assert(leading(Seq::<TreeColumn>::empty()) =~= Seq::<char>::empty());
    assert(render_text(node, Seq::empty()) =~= vec_label(item_type) + seq![':', ' ', '[', ']']);
}

/// Without a label, a list of no nodes is `[]`.
///
/// A list that has no label and no node is drawn as the two brackets alone, under any
/// columns and whether the compact mode is on or off.
pub proof fn lemma_empty_list_is_brackets(columns: Seq<TreeColumn>, compact: bool)
    ensures
        list_text(None, Seq::empty(), columns, compact) == seq!['[', ']'],
{
    assert(leading(Seq::<TreeColumn>::empty()) =~= Seq::<char>::empty());
    assert(list_text(None, Seq::empty(), columns, compact) =~= seq!['[', ']']);
}

/// The compact mode leaves out the label's row and nothing else.
///
/// Under a label, the rows of a list that is not compact are the label's row and then
/// the rows of the compact list.
pub proof fn lemma_compact_leaves_out_the_label(
    label: Seq<char>,
    nodes: Seq<Node>,
    columns: Seq<TreeColumn>,
)
    ensures
        list_rows(Some(label), nodes, columns, false) == seq![
            Row::Line { columns, text: label },
        ] + list_rows(Some(label), nodes, columns, true),
{
}

/// Colour is cosmetic.
///
/// Of one tree drawn at one place once without colour and once with colour, the text
/// without colour is what is left of the coloured text once its colour codes are cut
/// out.
pub proof fn lemma_color_is_cosmetic(
    node: Node,
    columns: Seq<TreeColumn>,
    plain_style: FormatterStyle,
    plain_out: Seq<char>,
    color_style: FormatterStyle,
    color_out: Seq<char>,
)
    requires
        !plain_style.colored(),
        color_style.colored(),
        drawn(plain_style, plain_out, render_text(node, columns)),
        drawn(color_style, color_out, render_text(node, columns)),
    ensures
        strips_to(color_out, plain_out),
{
}

/// Children given one by one are children given together.
///
/// A branch that gets the nodes of `children` one after the other is the branch that
/// holds them after those it had.
pub proof fn lemma_grown_by(label: Seq<char>, had: Seq<Node>, children: Seq<Node>, upto: nat)
    requires
        upto <= children.len(),
    ensures
        grown_by(Node::Branch { label, children: had }, children, upto) == (Node::Branch {
            label,
            children: had + children.take(upto as int),
        }),
    decreases upto,
{
    if upto == 0 {
        assert(had + children.take(0) =~= had);
    } else {
        lemma_grown_by(label, had, children, (upto - 1) as nat);
        assert(had + children.take(upto as int) =~= (had + children.take(upto - 1)).push(
            children[upto - 1],
        ));
    }
}

/// A branch built child by child is drawn as the branch built at once.
///
/// An empty branch that is given `first` and then `second` is the branch of the two,
/// and so is drawn in the same text under any columns.
pub proof fn lemma_built_child_by_child(
    label: Seq<char>,
    first: Node,
    second: Node,
    columns: Seq<TreeColumn>,
)
    ensures
        grown(grown(Node::Branch { label, children: Seq::empty() }, first), second)
            == (Node::Branch { label, children: seq![first, second] }),
        render_text(
            grown(grown(Node::Branch { label, children: Seq::empty() }, first), second),
            columns,
        ) == render_text(Node::Branch { label, children: seq![first, second] }, columns),
{
    assert(Seq::<Node>::empty().push(first).push(second) =~= seq![first, second]);
}

} // verus!
