//! Colour codes and what they leave of a text.
//!
//! A coloured render differs from the plain one only by colour codes that a terminal
//! consumes. This module says what a colour code is, relates a coloured text to the
//! plain text it decorates, and holds the two calls into `colored` that produce
//! coloured text.

use colored::Colorize;
use vstd::prelude::*;

verus! {

/// The character that opens every colour code.
pub open spec fn escape() -> char {
    '\u{1b}'
}

/// Whether `c` may stand between the opening `ESC [` and the closing `m` of a colour
/// code: a decimal digit or a semicolon.
pub open spec fn is_code_parameter(c: char) -> bool {
    ('0' <= c && c <= '9') || c == ';'
}

/// Whether `s` is one whole colour code: `ESC [`, then digits and semicolons, then `m`.
pub open spec fn is_color_code(s: Seq<char>) -> bool {
    &&& s.len() >= 3
    &&& s[0] == escape()
    &&& s[1] == '['
    &&& s[s.len() - 1] == 'm'
    &&& forall|k: int| 2 <= k < s.len() - 1 ==> is_code_parameter(#[trigger] s[k])
}

/// `s` without the characters from `from` up to, not including, `to`.
pub open spec fn cut(s: Seq<char>, from: int, to: int) -> Seq<char> {
    s.subrange(0, from) + s.subrange(to, s.len() as int)
}

/// Whether cutting the ranges of `cuts` out of `styled`, one after another, each of
/// them one whole colour code of the text as it then stands, leaves `plain`.
pub open spec fn cuts_leave(styled: Seq<char>, cuts: Seq<(int, int)>, plain: Seq<char>) -> bool
    decreases cuts.len(),
{
    if cuts.len() == 0 {
        styled == plain
    } else {
        let (from, to) = cuts[0];
        &&& 0 <= from < to <= styled.len()
        &&& is_color_code(styled.subrange(from, to))
        &&& cuts_leave(cut(styled, from, to), cuts.drop_first(), plain)
    }
}

/// Whether `plain` is what is left of `styled` once colour codes have been cut out of
/// it, one after another. Every text strips to itself.
pub open spec fn strips_to(styled: Seq<char>, plain: Seq<char>) -> bool {
    exists|cuts: Seq<(int, int)>| cuts_leave(styled, cuts, plain)
}

/// Every text strips to itself: nothing needs cutting.
pub proof fn lemma_strips_reflexive(s: Seq<char>)
    ensures
        strips_to(s, s),
{
    assert(cuts_leave(s, Seq::<(int, int)>::empty(), s));
}

proof fn lemma_cuts_chain(
    a: Seq<char>,
    first: Seq<(int, int)>,
    b: Seq<char>,
    second: Seq<(int, int)>,
    c: Seq<char>,
)
    requires
        cuts_leave(a, first, b),
        cuts_leave(b, second, c),
    ensures
        cuts_leave(a, first + second, c),
    decreases first.len(),
{
    if first.len() == 0 {
        assert(first + second =~= second);
    } else {
        let (from, to) = first[0];
        lemma_cuts_chain(cut(a, from, to), first.drop_first(), b, second, c);
        assert((first + second).drop_first() =~= first.drop_first() + second);
    }
}

proof fn lemma_cuts_append(a: Seq<char>, cuts: Seq<(int, int)>, p: Seq<char>, tail: Seq<char>)
    requires
        cuts_leave(a, cuts, p),
    ensures
        cuts_leave(a + tail, cuts, p + tail),
    decreases cuts.len(),
{
    if cuts.len() > 0 {
        let (from, to) = cuts[0];
        lemma_cuts_append(cut(a, from, to), cuts.drop_first(), p, tail);
        assert((a + tail).subrange(from, to) =~= a.subrange(from, to));
        assert(cut(a + tail, from, to) =~= cut(a, from, to) + tail);
    }
}

/// The ranges of `cuts`, each moved `by` places to the right.
spec fn moved(cuts: Seq<(int, int)>, by: int) -> Seq<(int, int)> {
    Seq::new(cuts.len(), |i: int| (cuts[i].0 + by, cuts[i].1 + by))
}

proof fn lemma_cuts_prepend(head: Seq<char>, b: Seq<char>, cuts: Seq<(int, int)>, q: Seq<char>)
    requires
        cuts_leave(b, cuts, q),
    ensures
        cuts_leave(head + b, moved(cuts, head.len() as int), head + q),
    decreases cuts.len(),
{
    let n = head.len() as int;
    if cuts.len() > 0 {
        let (from, to) = cuts[0];
        lemma_cuts_prepend(head, cut(b, from, to), cuts.drop_first(), q);
        assert(moved(cuts, n).drop_first() =~= moved(cuts.drop_first(), n));
        assert((head + b).subrange(n + from, n + to) =~= b.subrange(from, to));
        assert(cut(head + b, n + from, n + to) =~= head + cut(b, from, to));
    }
}

/// Cutting colour codes out relates texts transitively.
pub proof fn lemma_strips_transitive(a: Seq<char>, b: Seq<char>, c: Seq<char>)
    requires
        strips_to(a, b),
        strips_to(b, c),
    ensures
        strips_to(a, c),
{
    let first = choose|cuts: Seq<(int, int)>| cuts_leave(a, cuts, b);
    let second = choose|cuts: Seq<(int, int)>| cuts_leave(b, cuts, c);
    lemma_cuts_chain(a, first, b, second, c);
}

/// Two coloured texts in a row strip to their two plain texts in a row.
pub proof fn lemma_strips_concat(a: Seq<char>, p: Seq<char>, b: Seq<char>, q: Seq<char>)
    requires
        strips_to(a, p),
        strips_to(b, q),
    ensures
        strips_to(a + b, p + q),
{
    let first = choose|cuts: Seq<(int, int)>| cuts_leave(a, cuts, p);
    let second = choose|cuts: Seq<(int, int)>| cuts_leave(b, cuts, q);
    lemma_cuts_append(a, first, p, b);
    lemma_cuts_prepend(p, b, second, q);
    lemma_cuts_chain(a + b, first, p + b, moved(second, p.len() as int), p + q);
}

/// `colored::Colorize::truecolor` on `text`, written out through the `Display` of the
/// `ColoredString` it gives.
///
/// Whether anything is added, and which code stands for the colour, is decided by the
/// terminal and the environment of the process. Whatever comes back is `text` itself or
/// `text` with colour codes put in front of it, behind it and behind a reset code it
/// holds: cutting those codes out leaves `text`. This is taken from the source of
/// `colored` and believed, not proved.
#[verifier::external_body]
pub(crate) fn truecolor(text: &str, r: u8, g: u8, b: u8) -> (out: String)
    ensures
        strips_to(out@, text@),
{
    text.truecolor(r, g, b).to_string()
}

/// `colored::Colorize::dimmed` on `text`, written out through the `Display` of the
/// `ColoredString` it gives.
///
/// As with [`truecolor`], the process decides whether the dimming code is written at
/// all; cutting the added codes out leaves `text`. This too is believed, not proved.
#[verifier::external_body]
pub(crate) fn dimmed(text: &str) -> (out: String)
    ensures
        strips_to(out@, text@),
{
    text.dimmed().to_string()
}

} // verus!
