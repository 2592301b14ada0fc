//! What a drawn tree looks like.
//!
//! A drawing is a sequence of rows. Every node that shows up in it has one row of its
//! own: the glyphs of the columns it stands under, a connector, and its text. The text
//! that is handed out is the rows' texts with a line break between them.

use crate::data::Node;
use crate::formatter::TreeColumn;
use crate::text::debug_quoted;
use vstd::prelude::*;

verus! {

/// The character drawn for a column.
pub open spec fn glyph(column: TreeColumn) -> char {
    match column {
        TreeColumn::UpThenRight => '╭',
        TreeColumn::VerticalBar => '│',
        TreeColumn::DownAndRight => '├',
        TreeColumn::DownThenRight => '╰',
        TreeColumn::Empty => ' ',
    }
}

/// What a column shows on the rows beneath the row it was made for: a tee goes on
/// downwards as a bar, a corner ends and leaves a blank, and the others stay.
pub open spec fn settled(column: TreeColumn) -> TreeColumn {
    match column {
        TreeColumn::DownAndRight => TreeColumn::VerticalBar,
        TreeColumn::DownThenRight => TreeColumn::Empty,
        other => other,
    }
}

/// Every column of `columns` settled.
pub open spec fn settle(columns: Seq<TreeColumn>) -> Seq<TreeColumn> {
    Seq::new(columns.len(), |i: int| settled(columns[i]))
}

/// The columns one level further down: those of the level above settled, and `marker`
/// for the new level.
pub open spec fn descend(columns: Seq<TreeColumn>, marker: TreeColumn) -> Seq<TreeColumn> {
    settle(columns).push(marker)
}

/// The marker of entry `index` among `count` entries that are listed together: a corner
/// for the last one and a tee for those before it, but `head` for the first of several.
pub open spec fn marker_at(count: int, index: int, head: TreeColumn) -> TreeColumn {
    if index == 0 && count > 1 {
        head
    } else if index == count - 1 {
        TreeColumn::DownThenRight
    } else {
        TreeColumn::DownAndRight
    }
}

/// Whether `node` draws nothing at all: the empty tree, and a fragment of no nodes.
pub open spec fn draws_nothing(node: Node) -> bool {
    node is Empty || (node matches Node::Fragment { nodes } && nodes.len() == 0)
}

/// One row of a drawing.
pub enum Row {
    /// The row of a node that draws nothing: it holds no character.
    Blank,
    /// The row of a leaf or of a branch's label, under the columns it stands in.
    Line { columns: Seq<TreeColumn>, text: Seq<char> },
}

/// The rows of `node`, drawn under `columns`.
///
/// A leaf and a label have one row. A branch lists its children one level further down.
/// A fragment lists its nodes one level further down without a row of its own, and one
/// that holds a single node is that node, drawn where the fragment stands.
pub open spec fn rows(node: Node, columns: Seq<TreeColumn>) -> Seq<Row>
    decreases node, 0nat,
{
    match node {
        Node::Empty => seq![Row::Blank],
        Node::Value { text } => seq![Row::Line { columns, text }],
        Node::Quoted { text } => seq![Row::Line { columns, text: debug_quoted(text) }],
        Node::Branch { label, children } => seq![Row::Line { columns, text: label }] + listing(
            children,
            columns,
            TreeColumn::DownAndRight,
            children.len(),
        ),
        Node::Fragment { nodes } => if nodes.len() == 0 {
            seq![Row::Blank]
        } else if nodes.len() == 1 {
            rows(nodes[0], columns)
        } else {
            listing(nodes, columns, TreeColumn::DownAndRight, nodes.len())
        },
    }
}

/// The rows of the first `upto` of `nodes`, listed together one level beneath `columns`:
/// each under the marker that [`marker_at`] gives it.
pub open spec fn listing(
    nodes: Seq<Node>,
    columns: Seq<TreeColumn>,
    head: TreeColumn,
    upto: nat,
) -> Seq<Row>
    decreases nodes, upto,
{
    if upto == 0 || upto > nodes.len() {
        Seq::empty()
    } else {
        listing(nodes, columns, head, (upto - 1) as nat) + rows(
            nodes[upto - 1],
            descend(columns, marker_at(nodes.len() as int, upto - 1, head)),
        )
    }
}

/// The rows of a list of `nodes` under an optional `label`.
///
/// With a label the list is drawn as a branch is, but for `compact`, which leaves out
/// the label's row and keeps the rows of the nodes alone, however many there are.
/// Without a label, no node is drawn as `[]`, one node is drawn where the list stands,
/// and the first of several opens the list with a rounded corner.
pub open spec fn list_rows(
    label: Option<Seq<char>>,
    nodes: Seq<Node>,
    columns: Seq<TreeColumn>,
    compact: bool,
) -> Seq<Row> {
    match label {
        Some(label) => if compact {
            listing(nodes, columns, TreeColumn::DownAndRight, nodes.len())
        } else {
            rows(Node::Branch { label, children: nodes }, columns)
        },
        None => if nodes.len() == 0 {
            seq![Row::Line { columns: Seq::empty(), text: seq!['[', ']'] }]
        } else if nodes.len() == 1 {
            rows(nodes[0], columns)
        } else {
            listing(nodes, columns, TreeColumn::UpThenRight, nodes.len())
        },
    }
}

/// The glyphs of `columns`, two spaces between one and the next.
pub open spec fn gutter(columns: Seq<TreeColumn>) -> Seq<char>
    decreases columns.len(),
{
    if columns.len() == 0 {
        Seq::empty()
    } else if columns.len() == 1 {
        seq![glyph(columns[0])]
    } else {
        gutter(columns.drop_last()) + seq![' ', ' '] + seq![glyph(columns.last())]
    }
}

/// What ties a row's text to its columns: a connector and a thin space.
pub open spec fn connector() -> Seq<char> {
    seq!['╼', '\u{2009}']
}

/// What stands in front of a row's text: nothing at the root, else the gutter and the
/// connector.
pub open spec fn leading(columns: Seq<TreeColumn>) -> Seq<char> {
    if columns.len() == 0 {
        Seq::empty()
    } else {
        gutter(columns) + connector()
    }
}

/// A piece of a row's text, and the depth whose colour it takes where it takes one.
pub struct Piece {
    pub text: Seq<char>,
    pub depth: Option<nat>,
}

/// The depth whose colour the connector takes under `count` columns: that of the last
/// column, so that the connector is tied to the row above the one it stands in.
pub open spec fn tie_depth(count: nat) -> nat {
    if count > 1 {
        (count - 1) as nat
    } else {
        0
    }
}

/// The pieces of the gutter: each glyph in the colour of its own depth, and the two
/// spaces between one glyph and the next in no colour.
pub open spec fn gutter_pieces(columns: Seq<TreeColumn>) -> Seq<Piece>
    decreases columns.len(),
{
    if columns.len() == 0 {
        Seq::empty()
    } else if columns.len() == 1 {
        seq![Piece { text: seq![glyph(columns[0])], depth: Some(0nat) }]
    } else {
        gutter_pieces(columns.drop_last()) + seq![
            Piece { text: seq![' ', ' '], depth: None },
            Piece { text: seq![glyph(columns.last())], depth: Some((columns.len() - 1) as nat) },
        ]
    }
}

/// The pieces of what stands in front of a row's text: those of the gutter, and the
/// connector in the colour of [`tie_depth`]. At the root there is none.
pub open spec fn leading_pieces(columns: Seq<TreeColumn>) -> Seq<Piece> {
    if columns.len() == 0 {
        Seq::empty()
    } else {
        gutter_pieces(columns).push(
            Piece { text: connector(), depth: Some(tie_depth(columns.len())) },
        )
    }
}

/// The piece of a row's own text under `columns`: in the colour of the depth of the
/// row, which is the number of its columns.
pub open spec fn text_piece(columns: Seq<TreeColumn>, text: Seq<char>) -> Piece {
    Piece { text, depth: Some(columns.len()) }
}

/// The texts of `pieces`, one after the other.
pub open spec fn flat(pieces: Seq<Piece>) -> Seq<char>
    decreases pieces.len(),
{
    if pieces.len() == 0 {
        Seq::empty()
    } else {
        flat(pieces.drop_last()) + pieces.last().text
    }
}

/// The pieces of the gutter hold the gutter's text.
pub proof fn lemma_flat_gutter(columns: Seq<TreeColumn>)
    ensures
        flat(gutter_pieces(columns)) == gutter(columns),
    decreases columns.len(),
{
    if columns.len() == 1 {
        let pieces = gutter_pieces(columns);
        assert(flat(pieces.drop_last()) =~= Seq::<char>::empty());
        assert(flat(pieces) =~= gutter(columns));
    } else if columns.len() >= 2 {
        lemma_flat_gutter(columns.drop_last());
        let before = gutter_pieces(columns.drop_last());
        let pieces = gutter_pieces(columns);
        assert(pieces.drop_last().drop_last() =~= before);
        assert(flat(pieces.drop_last()) =~= gutter(columns.drop_last()) + seq![' ', ' ']);
        assert(flat(pieces) =~= gutter(columns));
    }
}

/// The pieces of the leading text hold the leading text.
pub proof fn lemma_flat_leading(columns: Seq<TreeColumn>)
    ensures
        flat(leading_pieces(columns)) == leading(columns),
{
    if columns.len() > 0 {
        lemma_flat_gutter(columns);
        assert(leading_pieces(columns).drop_last() =~= gutter_pieces(columns));
    }
}

/// The text of one row.
pub open spec fn row_text(row: Row) -> Seq<char> {
    match row {
        Row::Blank => Seq::empty(),
        Row::Line { columns, text } => leading(columns) + text,
    }
}

/// The texts of `rows`, a line break between one and the next.
pub open spec fn page(rows: Seq<Row>) -> Seq<char>
    decreases rows.len(),
{
    if rows.len() == 0 {
        Seq::empty()
    } else if rows.len() == 1 {
        row_text(rows[0])
    } else {
        page(rows.drop_last()) + seq!['\n'] + row_text(rows.last())
    }
}

/// The plain text of `node` drawn under `columns`.
pub open spec fn render_text(node: Node, columns: Seq<TreeColumn>) -> Seq<char> {
    page(rows(node, columns))
}

/// The plain text of a list of `nodes` under an optional `label`.
pub open spec fn list_text(
    label: Option<Seq<char>>,
    nodes: Seq<Node>,
    columns: Seq<TreeColumn>,
    compact: bool,
) -> Seq<char> {
    page(list_rows(label, nodes, columns, compact))
}

/// Every node has a row: no drawing is without rows.
pub proof fn lemma_rows_nonempty(node: Node, columns: Seq<TreeColumn>)
    ensures
        rows(node, columns).len() >= 1,
    decreases node, 0nat,
{
    match node {
        Node::Fragment { nodes } => {
            if nodes.len() == 1 {
                lemma_rows_nonempty(nodes[0], columns);
            } else if nodes.len() >= 2 {
                lemma_listing_nonempty(nodes, columns, TreeColumn::DownAndRight, nodes.len());
            }
        },
        _ => {},
    }
}

/// A listing of at least one node has a row.
pub proof fn lemma_listing_nonempty(
    nodes: Seq<Node>,
    columns: Seq<TreeColumn>,
    head: TreeColumn,
    upto: nat,
)
    requires
        1 <= upto <= nodes.len(),
    ensures
        listing(nodes, columns, head, upto).len() >= 1,
    decreases nodes, upto,
{
    lemma_rows_nonempty(
        nodes[upto - 1],
        descend(columns, marker_at(nodes.len() as int, upto - 1, head)),
    );
}

/// Rows put one after the other are drawn one after the other, a line break between
/// the two parts.
pub proof fn lemma_page_concat(first: Seq<Row>, second: Seq<Row>)
    requires
        first.len() >= 1,
        second.len() >= 1,
    ensures
        page(first + second) == page(first) + seq!['\n'] + page(second),
    decreases second.len(),
{
    let all = first + second;
    if second.len() == 1 {
        assert(all.drop_last() =~= first);
        assert(all.last() == second[0]);
    } else {
        lemma_page_concat(first, second.drop_last());
        assert(all.drop_last() =~= first + second.drop_last());
        assert(all.last() == second.last());
        assert(page(all) =~= page(first) + seq!['\n'] + page(second));
    }
}

} // verus!
