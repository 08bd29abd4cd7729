//! The text form of a classification, for logs and test assertions.
//!
//! A direct invocation reads `Hit("name")`, a near miss `Near("name", 2)`, and
//! a miss `Miss`. The name stands as the standard library's debug formatting
//! writes a `str`: between double quotes, with what cannot be shown escaped.

use vstd::prelude::*;

verus! {

/// The character that stands for the digit `d` (below ten).
pub open spec fn digit(d: nat) -> char {
    if d == 0 {
        '0'
    } else if d == 1 {
        '1'
    } else if d == 2 {
        '2'
    } else if d == 3 {
        '3'
    } else if d == 4 {
        '4'
    } else if d == 5 {
        '5'
    } else if d == 6 {
        '6'
    } else if d == 7 {
        '7'
    } else if d == 8 {
        '8'
    } else {
        '9'
    }
}

/// The decimal numeral of `n`, without leading zeros.
pub open spec fn decimal_text(n: nat) -> Seq<char>
    decreases n,
{
    if n < 10 {
        seq![digit(n)]
    } else {
        decimal_text(n / 10).push(digit(n % 10))
    }
}

/// The text of a direct invocation of the command whose quoted name is `quoted`.
pub open spec fn hit_text(quoted: Seq<char>) -> Seq<char> {
    seq!['H', 'i', 't', '('] + quoted + seq![')']
}

/// The text of a near miss, at `distance`, of the command whose quoted name is `quoted`.
pub open spec fn near_text(quoted: Seq<char>, distance: nat) -> Seq<char> {
    seq!['N', 'e', 'a', 'r', '('] + quoted + seq![',', ' '] + decimal_text(distance) + seq![')']
}

/// The text of a miss.
pub open spec fn miss_text() -> Seq<char> {
    seq!['M', 'i', 's', 's']
}

/// What `{:?}` writes for a `str` with the characters `text`.
pub uninterp spec fn debug_text(text: Seq<char>) -> Seq<char>;

/// Formats `text` with the standard library's `Debug` for `str`.
///
/// Nothing here is proved. The contract only gives the outcome a name,
/// [`debug_text`], and so claims that it depends on the characters of `text`
/// alone.
#[verifier::external_body]
pub(crate) fn quote(text: &str) -> (quoted: String)
    ensures
        quoted@ == debug_text(text@),
{
    format!("{:?}", text)
}

/// The one-character text of a digit.
fn digit_str(d: usize) -> (s: &'static str)
    requires
        d < 10,
    ensures
        s@ == seq![digit(d as nat)],
{
    proof {
        reveal_strlit("0");
        reveal_strlit("1");
        reveal_strlit("2");
        reveal_strlit("3");
        reveal_strlit("4");
        reveal_strlit("5");
        reveal_strlit("6");
        reveal_strlit("7");
        reveal_strlit("8");
        reveal_strlit("9");
    }
    let s = if d == 0 {
        "0"
    } else if d == 1 {
        "1"
    } else if d == 2 {
        "2"
    } else if d == 3 {
        "3"
    } else if d == 4 {
        "4"
    } else if d == 5 {
        "5"
    } else if d == 6 {
        "6"
    } else if d == 7 {
        "7"
    } else if d == 8 {
        "8"
    } else {
        "9"
    };
    s
}

/// Writes `n` in decimal.
pub fn decimal(n: usize) -> (text: String)
    ensures
        text@ == decimal_text(n as nat),
    decreases n,
{
    if n < 10 {
        String::from_str(digit_str(n))
    } else {
        let mut text = decimal(n / 10);
        text.append(digit_str(n % 10));
        text
    }
}

/// Writes a direct invocation; `quoted` is the command's name as it is to appear.
pub fn write_hit(quoted: &str) -> (text: String)
    ensures
        text@ == hit_text(quoted@),
{
    proof {
        reveal_strlit("Hit(");
        reveal_strlit(")");
    }
    let mut text = String::from_str("Hit(");
    text.append(quoted);
    text.append(")");
    text
}

/// Writes a near miss; `quoted` is the command's name as it is to appear.
pub fn write_near(quoted: &str, distance: usize) -> (text: String)
    ensures
        text@ == near_text(quoted@, distance as nat),
{
    proof {
        reveal_strlit("Near(");
        reveal_strlit(", ");
        reveal_strlit(")");
    }
    let number = decimal(distance);
    let mut text = String::from_str("Near(");
    text.append(quoted);
    text.append(", ");
    text.append(number.as_str());
    text.append(")");
    text
}

/// Writes a miss.
pub fn write_miss() -> (text: String)
    ensures
        text@ == miss_text(),
{
    proof {
        reveal_strlit("Miss");
    }
    let text = String::from_str("Miss");
    text
}

} // verus!
