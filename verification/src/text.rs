//! Texts that leaves are made of.

use core::fmt::Display;
use vstd::prelude::*;

verus! {

/// Whether `text` is what `value` writes of itself through `Display` when it is asked
/// for its `String`.
pub open spec fn shown<T: Display + ?Sized>(value: &T, text: Seq<char>) -> bool {
    exists|written: String| #[trigger]
        vstd::string::to_string_from_display_ensures::<T>(value, written) && written@ == text
}

/// `key`, a colon and a space, and `text`.
pub open spec fn key_text(key: Seq<char>, text: Seq<char>) -> Seq<char> {
    key + seq![':', ' '] + text
}

/// The line of a key with its value: `key`, a colon and a space, and `text`.
pub fn key_line(key: &str, text: &str) -> (line: String)
    ensures
        line@ == key_text(key@, text@),
{
    proof {
        reveal_strlit(": ");
    }
    let mut line = String::from_str(key);
    line.append(": ");
    line.append(text);
    assert(line@ =~= key_text(key@, text@));
    line
}

/// The text that `std`'s `Debug` writes for a string slice holding `text`: the text
/// between double quotes, with the characters that cannot stand there escaped.
pub uninterp spec fn debug_quoted(text: Seq<char>) -> Seq<char>;

/// `format!("{:?}", text)`, that is `<str as Debug>::fmt`: the quoted form of `text`.
/// What the quoted form holds is not stated here; that this call gives it is believed.
#[verifier::external_body]
pub(crate) fn quoted(text: &str) -> (out: String)
    ensures
        out@ == debug_quoted(text@),
{
    format!("{:?}", text)
}

/// The character of the decimal digit `d`.
pub open spec fn digit(d: nat) -> char {
    if d == 0 {
        '0'
    } else if d == 1 {
        '1'
    } else if d == 2 {
        '2'
    } else if d == 3 {
        '3'
    } else if d == 4 {
        '4'
    } else if d == 5 {
        '5'
    } else if d == 6 {
        '6'
    } else if d == 7 {
        '7'
    } else if d == 8 {
        '8'
    } else {
        '9'
    }
}

/// The decimal digits of `n`, the highest first and none of them a leading zero.
pub open spec fn decimal(n: nat) -> Seq<char>
    decreases n,
{
    if n < 10 {
        seq![digit(n)]
    } else {
        decimal(n / 10).push(digit(n % 10))
    }
}

/// The literal of the decimal digit `d`.
fn digit_str(d: u64) -> (text: &'static str)
    requires
        d < 10,
    ensures
        text@ == seq![digit(d as nat)],
{
    proof {
        reveal_strlit("0");
        reveal_strlit("1");
        reveal_strlit("2");
        reveal_strlit("3");
        reveal_strlit("4");
        reveal_strlit("5");
        reveal_strlit("6");
        reveal_strlit("7");
        reveal_strlit("8");
        reveal_strlit("9");
    }
    let text = if d == 0 {
        "0"
    } else if d == 1 {
        "1"
    } else if d == 2 {
        "2"
    } else if d == 3 {
        "3"
    } else if d == 4 {
        "4"
    } else if d == 5 {
        "5"
    } else if d == 6 {
        "6"
    } else if d == 7 {
        "7"
    } else if d == 8 {
        "8"
    } else {
        "9"
    };
    assert(text@ =~= seq![digit(d as nat)]);
    text
}

/// `n` written in decimal digits.
pub fn decimal_text(n: u64) -> (out: String)
    ensures
        out@ == decimal(n as nat),
{
    let mut rest: u64 = n / 10;
    let mut out = String::from_str(digit_str(n % 10));
    while rest > 0
        invariant
            rest > 0 ==> decimal(n as nat) == decimal(rest as nat) + out@,
            rest == 0 ==> decimal(n as nat) == out@,
        decreases rest,
    {
        let ghost behind = out@;
        let next: u64 = rest / 10;
        out = String::from_str(digit_str(rest % 10)).concat(out.as_str());
        proof {
            let one = seq![digit((rest % 10) as nat)];
            assert(out@ =~= one + behind);
            if next > 0 {
                assert(decimal(rest as nat) =~= decimal(next as nat) + one);
                assert(decimal(n as nat) =~= decimal(next as nat) + out@);
            } else {
                assert(decimal(rest as nat) =~= one);
            }
        }
        rest = next;
    }
    out
}

} // verus!
