//! The renderer: from a tree to its text.

use crate::data::{nodes_of, Node, PrettyBranch, PrettyFragment, PrettyTree};
use crate::layout::{
    connector, descend, draws_nothing, flat, glyph, gutter_pieces, leading, leading_pieces,
    lemma_flat_leading, lemma_listing_nonempty, lemma_page_concat, lemma_rows_nonempty,
    list_text, listing, marker_at, page, render_text, row_text, rows, settled, text_piece,
    tie_depth, Piece, Row,
};
use crate::paint::{
    dimmed, lemma_strips_concat, lemma_strips_reflexive, lemma_strips_transitive, strips_to,
    truecolor,
};
use crate::text::quoted;
use vstd::prelude::*;

verus! {

/// What one column of a row shows.
#[derive(Debug, Clone, Copy)]
pub enum TreeColumn {
    UpThenRight,
    VerticalBar,
    DownAndRight,
    DownThenRight,
    Empty,
}

impl TreeColumn {
    /// The column's glyph as a text of its own.
    pub fn to_string(&self) -> (text: String)
        ensures
            text@ == seq![glyph(*self)],
    {
        let text = String::from_str(self.as_str());
        text
    }

    /// The column's glyph as a literal.
    fn as_str(&self) -> (text: &'static str)
        ensures
            text@ == seq![glyph(*self)],
    {
        proof {
            reveal_strlit("╭");
            reveal_strlit("│");
            reveal_strlit("├");
            reveal_strlit("╰");
            reveal_strlit(" ");
        }
        let text = match self {
            TreeColumn::UpThenRight => "╭",
            TreeColumn::VerticalBar => "│",
            TreeColumn::DownAndRight => "├",
            TreeColumn::DownThenRight => "╰",
            TreeColumn::Empty => " ",
        };
        assert(text@ =~= seq![glyph(*self)]);
        text
    }

    /// What the column shows on the rows beneath the one it was made for.
    fn settled(self) -> (column: TreeColumn)
        ensures
            column == settled(self),
    {
        match self {
            TreeColumn::DownAndRight => TreeColumn::VerticalBar,
            TreeColumn::DownThenRight => TreeColumn::Empty,
            other => other,
        }
    }
}

/// How to draw: with or without colour, with or without the labels of lists.
#[derive(Debug, Clone, Copy)]
pub struct FormatterStyle {
    use_color: bool,
    compact_mode: bool,
}

/// The colour of a depth, as red, green and blue: four colours that come round again.
pub open spec fn palette(depth: nat) -> (u8, u8, u8) {
    if depth % 4 == 0 {
        (255, 20, 165)
    } else if depth % 4 == 1 {
        (252, 255, 87)
    } else if depth % 4 == 2 {
        (0, 255, 0)
    } else {
        (102, 255, 252)
    }
}

/// Whether `out` is a drawing of `plain` in `style`: without colour it is `plain`
/// itself; with colour, `plain` is what is left of it once its colour codes are cut out.
pub open spec fn drawn(style: FormatterStyle, out: Seq<char>, plain: Seq<char>) -> bool {
    if style.colored() {
        strips_to(out, plain)
    } else {
        out == plain
    }
}

/// Two drawings in a row draw their two plain texts in a row.
pub proof fn lemma_drawn_concat(
    style: FormatterStyle,
    a: Seq<char>,
    p: Seq<char>,
    b: Seq<char>,
    q: Seq<char>,
)
    requires
        drawn(style, a, p),
        drawn(style, b, q),
    ensures
        drawn(style, a + b, p + q),
{
    if style.colored() {
        lemma_strips_concat(a, p, b, q);
    }
}

/// A text draws itself in every style.
pub proof fn lemma_drawn_same(style: FormatterStyle, text: Seq<char>)
    ensures
        drawn(style, text, text),
{
    lemma_strips_reflexive(text);
}

impl FormatterStyle {
    /// Whether colour is on.
    pub closed spec fn colored(self) -> bool {
        self.use_color
    }

    /// Whether the labels of lists are left out.
    pub closed spec fn compact(self) -> bool {
        self.compact_mode
    }

    /// This style with colour switched on or off.
    pub fn use_color(self, color: bool) -> (style: Self)
        ensures
            style.colored() == color,
            style.compact() == self.compact(),
    {
        Self { use_color: color, compact_mode: self.compact_mode }
    }

    /// This style with the compact mode switched on or off.
    pub fn compact_mode(self, compact_mode: bool) -> (style: Self)
        ensures
            style.colored() == self.colored(),
            style.compact() == compact_mode,
    {
        Self { use_color: self.use_color, compact_mode }
    }

    /// The colour of `depth`.
    pub fn tint(depth: usize) -> (rgb: (u8, u8, u8))
        ensures
            rgb == palette(depth as nat),
    {
        let turn: usize = depth % 4;
        if turn == 0 {
            (255, 20, 165)
        } else if turn == 1 {
            (252, 255, 87)
        } else if turn == 2 {
            (0, 255, 0)
        } else {
            (102, 255, 252)
        }
    }

    /// `text` in the colour of `depth`, or `text` as it is where colour is off.
    pub fn color(&self, depth: usize, text: &str) -> (out: String)
        ensures
            drawn(*self, out@, text@),
    {
        if !self.use_color {
            return String::from_str(text);
        }
        let (r, g, b) = FormatterStyle::tint(depth);
        truecolor(text, r, g, b)
    }
}

impl Default for FormatterStyle {
    fn default() -> (style: Self)
        ensures
            !style.colored(),
            !style.compact(),
    {
        Self { use_color: false, compact_mode: false }
    }
}

/// A place in a drawing: the columns that the next row stands under, and the style.
#[derive(Debug)]
pub struct Formatter {
    columns: Vec<TreeColumn>,
    style: FormatterStyle,
}

impl Clone for Formatter {
    fn clone(&self) -> (copy: Self)
        ensures
            copy.stack() == self.stack(),
            copy.style_of() == self.style_of(),
    {
        let columns = self.columns.clone();
        assert(columns@ =~= self.columns@);
        Self { columns, style: self.style }
    }
}

impl Default for Formatter {
    fn default() -> (formatter: Self)
        ensures
            formatter.stack() == Seq::<TreeColumn>::empty(),
            !formatter.style_of().colored(),
            !formatter.style_of().compact(),
    {
        Self { columns: Vec::new(), style: FormatterStyle::default() }
    }
}

impl Formatter {
    pub const COLUMN_LENGTH: usize = 4;

    /// The columns that the next row stands under, the outermost first.
    pub closed spec fn stack(&self) -> Seq<TreeColumn> {
        self.columns@
    }

    /// The style that is drawn in.
    pub closed spec fn style_of(&self) -> FormatterStyle {
        self.style
    }

    /// The root of a drawing in `style`: no column yet.
    pub fn new(style: FormatterStyle) -> (formatter: Self)
        ensures
            formatter.stack() == Seq::<TreeColumn>::empty(),
            formatter.style_of() == style,
    {
        Self { columns: Vec::new(), style }
    }

    /// The same place in the style that `f` makes of this one's.
    pub fn map_formatter_style<F: FnOnce(FormatterStyle) -> FormatterStyle>(
        self,
        f: F,
    ) -> (formatter: Self)
        requires
            f.requires((self.style_of(),)),
        ensures
            formatter.stack() == self.stack(),
            f.ensures((self.style_of(),), formatter.style_of()),
    {
        Self { columns: self.columns, style: f(self.style) }
    }

    /// The place one level further down, under `marker`.
    fn descend(&self, marker: TreeColumn) -> (next: Self)
        ensures
            next.stack() == descend(self.stack(), marker),
            next.style_of() == self.style_of(),
    {
        let mut columns: Vec<TreeColumn> = Vec::new();
        let mut i: usize = 0;
        while i < self.columns.len()
            invariant
                i <= self.columns.len(),
                columns@.len() == i,
                forall|k: int| 0 <= k < i ==> columns@[k] == settled(self.columns@[k]),
            decreases self.columns.len() - i,
        {
            columns.push(self.columns[i].settled());
            i += 1;
        }
        columns.push(marker);
        assert(columns@ =~= descend(self.columns@, marker));
        Self { columns, style: self.style }
    }

    /// The place of the last entry of a level: one level further down, under a corner.
    pub fn down_then_right(&self) -> (next: Self)
        ensures
            next.stack() == descend(self.stack(), TreeColumn::DownThenRight),
            next.style_of() == self.style_of(),
    {
        self.descend(TreeColumn::DownThenRight)
    }

    /// The place of an entry that others follow: one level further down, under a tee.
    pub fn down_and_right(&self) -> (next: Self)
        ensures
            next.stack() == descend(self.stack(), TreeColumn::DownAndRight),
            next.style_of() == self.style_of(),
    {
        self.descend(TreeColumn::DownAndRight)
    }

    /// The place of the entry that opens a list: one level further down, under a rounded
    /// corner.
    pub fn up_then_right(&self) -> (next: Self)
        ensures
            next.stack() == descend(self.stack(), TreeColumn::UpThenRight),
            next.style_of() == self.style_of(),
    {
        self.descend(TreeColumn::UpThenRight)
    }

    /// This place with `column` behind its columns, which stay as they are.
    pub fn with_column(&self, column: TreeColumn) -> (next: Self)
        ensures
            next.stack() == self.stack().push(column),
            next.style_of() == self.style_of(),
    {
        let mut columns = self.columns.clone();
        assert(columns@ =~= self.columns@);
        columns.push(column);
        Self { columns, style: self.style }
    }

    /// This place with `column` for its last column; at the root nothing changes.
    pub fn replace_last_column(self, column: TreeColumn) -> (next: Self)
        ensures
            self.stack().len() == 0 ==> next.stack() == self.stack(),
            self.stack().len() > 0 ==> next.stack() == self.stack().drop_last().push(column),
            next.style_of() == self.style_of(),
    {
        let mut columns = self.columns;
        let depth: usize = columns.len();
        if depth > 0 {
            columns.set(depth - 1, column);
            assert(columns@ =~= self.columns@.drop_last().push(column));
        }
        Self { columns, style: self.style }
    }

    /// This place without its last column; at the root nothing changes.
    pub fn drop_last_column(self) -> (next: Self)
        ensures
            self.stack().len() == 0 ==> next.stack() == self.stack(),
            self.stack().len() > 0 ==> next.stack() == self.stack().drop_last(),
            next.style_of() == self.style_of(),
    {
        let mut columns = self.columns;
        columns.pop();
        Self { columns, style: self.style }
    }
}

/// A piece of a row's text as it is handed to the painter: the text, and the depth
/// whose colour it is to take where it is to take one.
#[derive(Debug)]
pub struct Stroke {
    pub text: String,
    pub depth: Option<usize>,
}

impl View for Stroke {
    type V = Piece;

    open spec fn view(&self) -> Piece {
        Piece {
            text: self.text@,
            depth: match self.depth {
                Some(depth) => Some(depth as nat),
                None => None,
            },
        }
    }
}

/// The pieces that `strokes` stand for, one for one.
pub open spec fn pieces_of(strokes: Seq<Stroke>) -> Seq<Piece> {
    Seq::new(strokes.len(), |i: int| strokes[i]@)
}

impl FormatterStyle {
    /// The text of `stroke`, in the colour of its depth where it has one and colour is
    /// on, and as it stands where it has none.
    pub fn paint(&self, stroke: &Stroke) -> (out: String)
        ensures
            drawn(*self, out@, stroke@.text),
            stroke.depth is None ==> out@ == stroke@.text,
    {
        match stroke.depth {
            Some(depth) => self.color(depth, stroke.text.as_str()),
            None => {
                proof {
                    lemma_drawn_same(*self, stroke.text@);
                }
                stroke.text.clone()
            },
        }
    }

    /// The texts of `strokes`, each painted, one after the other.
    pub fn paint_all(&self, strokes: &Vec<Stroke>) -> (out: String)
        ensures
            drawn(*self, out@, flat(pieces_of(strokes@))),
    {
        let mut out = String::new();
        let mut ix: usize = 0;
        proof {
            lemma_drawn_same(*self, Seq::empty());
            assert(pieces_of(strokes@).take(0) =~= Seq::<Piece>::empty());
        }
        while ix < strokes.len()
            invariant
                ix <= strokes.len(),
                drawn(*self, out@, flat(pieces_of(strokes@).take(ix as int))),
            decreases strokes.len() - ix,
        {
            let ghost before = out@;
            let ghost pieces = pieces_of(strokes@);
            let painted = self.paint(&strokes[ix]);
            out.append(painted.as_str());
            proof {
                assert(pieces.take(ix + 1).drop_last() =~= pieces.take(ix as int));
                assert(pieces.take(ix + 1).last() == strokes@[ix as int]@);
                lemma_drawn_concat(
                    *self,
                    before,
                    flat(pieces.take(ix as int)),
                    painted@,
                    strokes@[ix as int]@.text,
                );
            }
            ix += 1;
        }
        proof {
            assert(pieces_of(strokes@).take(strokes@.len() as int) =~= pieces_of(strokes@));
        }
        out
    }
}

impl Formatter {
    /// The pieces of what stands in front of a row's text at this place, each with the
    /// depth whose colour it takes: a glyph its own depth, the spaces between two glyphs
    /// none, and the connector the depth of the last column.
    pub fn leading_strokes(&self) -> (strokes: Vec<Stroke>)
        ensures
            pieces_of(strokes@) == leading_pieces(self.stack()),
    {
        let depth: usize = self.columns.len();
        let mut strokes: Vec<Stroke> = Vec::new();
        let mut ix: usize = 0;
        proof {
            assert(self.columns@.take(0) =~= Seq::<TreeColumn>::empty());
            assert(pieces_of(strokes@) =~= gutter_pieces(self.columns@.take(0)));
        }
        while ix < depth
            invariant
                depth == self.columns.len(),
                ix <= depth,
                pieces_of(strokes@) == gutter_pieces(self.columns@.take(ix as int)),
            decreases depth - ix,
        {
            let ghost had = pieces_of(strokes@);
            let ghost upto = self.columns@.take(ix + 1);
            if ix > 0 {
                proof {
                    reveal_strlit("  ");
                }
                strokes.push(Stroke { text: String::from_str("  "), depth: None });
            }
            strokes.push(
                Stroke { text: String::from_str(self.columns[ix].as_str()), depth: Some(ix) },
            );
            proof {
                let one = Piece {
                    text: seq![glyph(self.columns@[ix as int])],
                    depth: Some(ix as nat),
                };
                reveal_strlit("  ");
                assert("  "@ =~= seq![' ', ' ']);
                assert(upto.drop_last() =~= self.columns@.take(ix as int));
                assert(upto.last() == self.columns@[ix as int]);
                if ix > 0 {
                    assert(pieces_of(strokes@) =~= had + seq![
                        Piece { text: seq![' ', ' '], depth: None },
                        one,
                    ]);
                } else {
                    assert(pieces_of(strokes@) =~= seq![one]);
                }
            }
            ix += 1;
        }
        proof {
            assert(self.columns@.take(depth as int) =~= self.columns@);
        }
        if depth > 0 {
            let at: usize = if depth > 1 {
                depth - 1
            } else {
                0
            };
            let ghost had = pieces_of(strokes@);
            proof {
                reveal_strlit("╼\u{2009}");
            }
            strokes.push(Stroke { text: String::from_str("╼\u{2009}"), depth: Some(at) });
            proof {
                assert("╼\u{2009}"@ =~= connector());
                assert(pieces_of(strokes@) =~= had.push(
                    Piece { text: connector(), depth: Some(tie_depth(depth as nat)) },
                ));
            }
        }
        strokes
    }

    /// The piece of a row's own text at this place: `value`, with the depth of the
    /// place, which is the number of its columns.
    pub fn text_stroke(&self, value: &str) -> (stroke: Stroke)
        ensures
            stroke@ == text_piece(self.stack(), value@),
    {
        Stroke { text: String::from_str(value), depth: Some(self.columns.len()) }
    }

    /// What stands in front of a row's text at this place: the painting of
    /// [`Formatter::leading_strokes`], dimmed as a whole where colour is on.
    pub fn leading(&self) -> (out: String)
        ensures
            drawn(self.style_of(), out@, leading(self.stack())),
    {
        let strokes = self.leading_strokes();
        let text = self.style.paint_all(&strokes);
        proof {
            lemma_flat_leading(self.columns@);
        }
        if self.style.use_color {
            let dim = dimmed(text.as_str());
            proof {
                lemma_strips_transitive(dim@, text@, leading(self.columns@));
            }
            dim
        } else {
            text
        }
    }

    /// The row of a leaf with the text `value` at this place: the leading text, and the
    /// painting of [`Formatter::text_stroke`].
    pub fn leaf(&self, value: &str) -> (out: String)
        ensures
            drawn(
                self.style_of(),
                out@,
                row_text(Row::Line { columns: self.stack(), text: value@ }),
            ),
    {
        let mut out = self.leading();
        let ghost front = out@;
        let stroke = self.text_stroke(value);
        let trailing = self.style.paint(&stroke);
        out.append(trailing.as_str());
        proof {
            lemma_drawn_concat(self.style, front, leading(self.columns@), trailing@, value@);
        }
        out
    }

    /// The rows of `nodes`, listed together one level beneath this place, the first of
    /// several under `head`.
    fn entries(&self, nodes: &Vec<PrettyTree>, head: TreeColumn) -> (out: String)
        ensures
            drawn(
                self.style_of(),
                out@,
                page(listing(nodes_of(nodes@), self.stack(), head, nodes@.len())),
            ),
            nodes@.len() == 0 ==> out@ == Seq::<char>::empty(),
        decreases nodes, 1nat,
    {
        let count: usize = nodes.len();
        let mut out = String::new();
        let mut ix: usize = 0;
        proof {
            lemma_drawn_same(self.style, Seq::empty());
        }
        while ix < count
            invariant
                count == nodes.len(),
                ix <= count,
                ix == 0 ==> out@ == Seq::<char>::empty(),
                drawn(
                    self.style,
                    out@,
                    page(listing(nodes_of(nodes@), self.columns@, head, ix as nat)),
                ),
            decreases count - ix,
        {
            let ghost kids = nodes_of(nodes@);
            let ghost above = listing(kids, self.columns@, head, ix as nat);
            let ghost before = out@;
            let marker = if ix == 0 && count > 1 {
                head
            } else if ix == count - 1 {
                TreeColumn::DownThenRight
            } else {
                TreeColumn::DownAndRight
            };
            let place = self.descend(marker);
            let entry = nodes[ix].format(&place);
            let ghost below = rows(kids[ix as int], place.columns@);
            if ix > 0 {
                proof {
                    reveal_strlit("\n");
                }
                out.append("\n");
            }
            out.append(entry.as_str());
            proof {
                assert(marker == marker_at(kids.len() as int, ix as int, head));
                assert(listing(kids, self.columns@, head, (ix + 1) as nat) == above + below);
                lemma_rows_nonempty(kids[ix as int], place.columns@);
                if ix > 0 {
                    let gap = seq!['\n'];
                    lemma_listing_nonempty(kids, self.columns@, head, ix as nat);
                    lemma_page_concat(above, below);
                    assert(out@ =~= before + gap + entry@);
                    lemma_drawn_same(self.style, gap);
                    lemma_drawn_concat(self.style, before, page(above), gap, gap);
                    lemma_drawn_concat(
                        self.style,
                        before + gap,
                        page(above) + gap,
                        entry@,
                        page(below),
                    );
                } else {
                    assert(above + below =~= below);
                    assert(out@ =~= entry@);
                }
            }
            ix += 1;
        }
        out
    }

    /// The drawing of a branch at this place: the row of `label`, and beneath it the
    /// children, the last under a corner and those before it under a tee.
    pub fn branch(&self, label: &str, children: &Vec<PrettyTree>) -> (out: String)
        ensures
            drawn(
                self.style_of(),
                out@,
                render_text(
                    Node::Branch { label: label@, children: nodes_of(children@) },
                    self.stack(),
                ),
            ),
        decreases children, 2nat,
    {
        let mut out = self.leaf(label);
        let ghost kids = nodes_of(children@);
        let ghost top = seq![Row::Line { columns: self.columns@, text: label@ }];
        let ghost below = listing(kids, self.columns@, TreeColumn::DownAndRight, kids.len());
        if children.len() == 0 {
            proof {
                assert(top + below =~= top);
            }
            return out;
        }
        let ghost first = out@;
        let listed = self.entries(children, TreeColumn::DownAndRight);
        proof {
            reveal_strlit("\n");
        }
        out.append("\n");
        out.append(listed.as_str());
        proof {
            let gap = seq!['\n'];
            lemma_listing_nonempty(kids, self.columns@, TreeColumn::DownAndRight, kids.len());
            lemma_page_concat(top, below);
            assert(out@ =~= first + gap + listed@);
            lemma_drawn_same(self.style, gap);
            lemma_drawn_concat(self.style, first, page(top), gap, gap);
            lemma_drawn_concat(self.style, first + gap, page(top) + gap, listed@, page(below));
        }
        out
    }

    /// The drawing of a fragment at this place: its nodes as a branch's children, but
    /// without a row above them; a single node where the fragment itself stands; no
    /// node, no text in any style.
    pub fn fragment(&self, list: &Vec<PrettyTree>) -> (out: String)
        ensures
            drawn(
                self.style_of(),
                out@,
                render_text(Node::Fragment { nodes: nodes_of(list@) }, self.stack()),
            ),
            list@.len() == 0 ==> out@ == Seq::<char>::empty(),
        decreases list, 2nat,
    {
        if list.len() == 1 {
            return list[0].format(self);
        }
        self.entries(list, TreeColumn::DownAndRight)
    }

    /// The drawing of a list at this place, under `label` where there is one.
    ///
    /// Under a label a list is drawn as a branch; in the compact mode the label's row is
    /// left out and the nodes stand alone, however many there are. Without a label, no
    /// node gives `[]`, one node is drawn where the list stands, and several are listed
    /// with a rounded corner on the first. Where nothing is painted the text is the same
    /// in every style.
    pub fn list(&self, label: Option<&str>, list: &Vec<PrettyTree>) -> (out: String)
        ensures
            drawn(
                self.style_of(),
                out@,
                list_text(
                    match label {
                        Some(label) => Some(label@),
                        None => None,
                    },
                    nodes_of(list@),
                    self.stack(),
                    self.style_of().compact(),
                ),
            ),
            label is None && list@.len() == 0 ==> out@ == seq!['[', ']'],
            label is Some && self.style_of().compact() && list@.len() == 0 ==> out@ == Seq::<
                char,
            >::empty(),
        decreases list, 2nat,
    {
        match label {
            Some(label) => {
                if self.style.compact_mode {
                    self.entries(list, TreeColumn::DownAndRight)
                } else {
                    self.branch(label, list)
                }
            },
            None => {
                if list.len() == 0 {
                    proof {
                        reveal_strlit("[]");
                        assert("[]"@ =~= seq!['[', ']']);
                        assert(leading(Seq::<TreeColumn>::empty()) + seq!['[', ']'] =~= seq![
                            '[',
                            ']',
                        ]);
                        lemma_drawn_same(self.style, seq!['[', ']']);
                    }
                    String::from_str("[]")
                } else if list.len() == 1 {
                    list[0].format(self)
                } else {
                    self.entries(list, TreeColumn::UpThenRight)
                }
            },
        }
    }
}

impl PrettyTree {
    /// The drawing of this tree at the place `formatter`.
    ///
    /// Without colour the text is exactly [`render_text`]; with colour it is that text
    /// with colour codes in it. A tree that draws nothing gives the text without a
    /// character in every style.
    pub fn format(&self, formatter: &Formatter) -> (out: String)
        ensures
            drawn(formatter.style_of(), out@, render_text(self@, formatter.stack())),
            draws_nothing(self@) ==> out@ == Seq::<char>::empty(),
        decreases self, 0nat,
    {
        match self {
            Self::Empty => {
                proof {
                    lemma_drawn_same(formatter.style, Seq::empty());
                }
                String::new()
            },
            Self::Value(x) => formatter.leaf(x.as_str()),
            Self::String(x) => {
                let text = quoted(x.as_str());
                formatter.leaf(text.as_str())
            },
            Self::Branch(x) => x.format(formatter),
            Self::Fragment(x) => x.format(formatter),
        }
    }

    /// The drawing of this tree from the root, without colour.
    pub fn render(&self) -> (out: String)
        ensures
            out@ == render_text(self@, Seq::empty()),
    {
        self.format(&Formatter::default())
    }
}

impl PrettyBranch {
    /// The drawing of this branch at the place `formatter`.
    pub fn format(&self, formatter: &Formatter) -> (out: String)
        ensures
            drawn(formatter.style_of(), out@, render_text(self@, formatter.stack())),
        decreases self, 0nat,
    {
        formatter.branch(self.label.as_str(), &self.children)
    }
}

impl PrettyFragment {
    /// The drawing of this fragment at the place `formatter`. A fragment of no nodes
    /// gives the text without a character in every style.
    pub fn format(&self, formatter: &Formatter) -> (out: String)
        ensures
            drawn(formatter.style_of(), out@, render_text(self@, formatter.stack())),
            self.nodes@.len() == 0 ==> out@ == Seq::<char>::empty(),
        decreases self, 0nat,
    {
        formatter.fragment(&self.nodes)
    }
}

} // verus!
