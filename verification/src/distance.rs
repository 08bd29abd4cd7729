//! Edit distance between two texts, counted in characters.
//!
//! The distance is the classic one of Levenshtein: the fewest insertions,
//! deletions and substitutions of a single character that turn one text into
//! the other. A character is a Unicode scalar value, so a character that takes
//! several bytes still counts once.

use vstd::prelude::*;
use vstd::std_specs::iter::IteratorSpec;

verus! {

broadcast use vstd::string::group_string_axioms;

/// What it costs to let `y` stand where `x` stood: nothing if they are the
/// same character, one edit otherwise.
pub open spec fn substitution_cost(x: char, y: char) -> nat {
    if x == y {
        0
    } else {
        1
    }
}

/// The least of three numbers.
pub open spec fn least_of(x: nat, y: nat, z: nat) -> nat {
    if x <= y && x <= z {
        x
    } else if y <= z {
        y
    } else {
        z
    }
}

/// The edit distance between `a` and `b`.
///
/// Against an empty text every character of the other has to be inserted.
/// Otherwise the last characters are matched or substituted, or the last
/// character of one side is dropped, whichever is cheapest. That this is the
/// least number of edits between the two is shown in [`crate::edits`].
pub open spec fn edit_distance(a: Seq<char>, b: Seq<char>) -> nat
    decreases a.len() + b.len(),
{
    if a.len() == 0 {
        b.len()
    } else if b.len() == 0 {
        a.len()
    } else {
        least_of(
            edit_distance(a.drop_last(), b.drop_last()) + substitution_cost(a.last(), b.last()),
            edit_distance(a.drop_last(), b) + 1,
            edit_distance(a, b.drop_last()) + 1,
        )
    }
}

/// The distance between the first `i` characters of `a` and the first `j` of `b`.
spec fn prefix_distance(a: Seq<char>, b: Seq<char>, i: int, j: int) -> nat {
    edit_distance(a.take(i), b.take(j))
}

/// A text is at distance zero from itself.
pub proof fn lemma_distance_to_self(s: Seq<char>)
    ensures
        edit_distance(s, s) == 0,
    decreases s.len(),
{
    if s.len() > 0 {
        lemma_distance_to_self(s.drop_last());
    }
}

/// The distance does not depend on the order of its arguments.
pub proof fn lemma_distance_symmetric(a: Seq<char>, b: Seq<char>)
    ensures
        edit_distance(a, b) == edit_distance(b, a),
    decreases a.len() + b.len(),
{
    if a.len() > 0 && b.len() > 0 {
        lemma_distance_symmetric(a.drop_last(), b.drop_last());
        lemma_distance_symmetric(a.drop_last(), b);
        lemma_distance_symmetric(a, b.drop_last());
    }
}

/// The distance between the empty text and `s`, either way round, is the
/// number of characters of `s`.
pub proof fn lemma_distance_to_empty(s: Seq<char>)
    ensures
        edit_distance(Seq::<char>::empty(), s) == s.len(),
        edit_distance(s, Seq::<char>::empty()) == s.len(),
{
}

/// Only a text itself is at distance zero from it.
pub proof fn lemma_distance_zero_only_to_self(a: Seq<char>, b: Seq<char>)
    requires
        edit_distance(a, b) == 0,
    ensures
        a == b,
    decreases a.len() + b.len(),
{
    if a.len() > 0 && b.len() > 0 {
        lemma_distance_zero_only_to_self(a.drop_last(), b.drop_last());
        assert(a =~= a.drop_last().push(a.last()));
    }
}

/// The distance is never more than the length of the longer text.
pub proof fn lemma_distance_at_most_longer(a: Seq<char>, b: Seq<char>)
    ensures
        edit_distance(a, b) <= a.len() || edit_distance(a, b) <= b.len(),
    decreases a.len() + b.len(),
{
    if a.len() > 0 && b.len() > 0 {
        lemma_distance_at_most_longer(a.drop_last(), b.drop_last());
    }
}

/// The distance is never less than the difference of the lengths.
pub proof fn lemma_distance_at_least_length_gap(a: Seq<char>, b: Seq<char>)
    ensures
        a.len() <= b.len() + edit_distance(a, b),
        b.len() <= a.len() + edit_distance(a, b),
    decreases a.len() + b.len(),
{
    if a.len() > 0 && b.len() > 0 {
        lemma_distance_at_least_length_gap(a.drop_last(), b.drop_last());
        lemma_distance_at_least_length_gap(a.drop_last(), b);
        lemma_distance_at_least_length_gap(a, b.drop_last());
    }
}

/// How the distance between two prefixes follows from those between shorter ones.
proof fn lemma_prefix_step(a: Seq<char>, b: Seq<char>, i: int, j: int)
    requires
        0 <= i < a.len(),
        0 <= j < b.len(),
    ensures
        prefix_distance(a, b, i + 1, j + 1) == least_of(
            prefix_distance(a, b, i, j) + substitution_cost(a[i], b[j]),
            prefix_distance(a, b, i, j + 1) + 1,
            prefix_distance(a, b, i + 1, j) + 1,
        ),
{
    assert(a.take(i + 1).drop_last() == a.take(i));
    assert(b.take(j + 1).drop_last() == b.take(j));
}

/// Whether two texts hold the same characters in the same order.
fn same_text(a: &str, b: &str) -> (same: bool)
    ensures
        same == (a@ == b@),
{
    let mut rest = b.chars();
    for x in it: a.chars()
        invariant
            it.seq() == a@,
            rest.remaining() == b@.skip(it.index()),
            it.index() <= b@.len(),
            a@.take(it.index()) == b@.take(it.index()),
    {
        match rest.next() {
            Some(y) => {
                if x != y {
                    return false;
                }
            },
            None => {
                return false;
            },
        }
    }
    let last = rest.next();
    proof {
        let n = a@.len() as int;
        assert(a@.take(n) == a@);
        if last is None {
            assert(b@.take(n) == b@);
        }
    }
    last.is_none()
}

/// The edit distance between the reference `a` and the candidate `b`, in
/// characters.
///
/// Equal texts are told apart first and cost nothing. Otherwise the table of
/// distances between prefixes is swept one character of `b` at a time, and
/// only one row of it is kept: room for as many numbers as `a` has
/// characters.
pub fn levenshtein(a: &str, b: &str) -> (distance: usize)
    ensures
        distance == edit_distance(a@, b@),
        distance == edit_distance(b@, a@),
        distance == 0 <==> a@ == b@,
        a@.len() == 0 ==> distance == b@.len(),
        b@.len() == 0 ==> distance == a@.len(),
        distance <= a@.len() || distance <= b@.len(),
{
    proof {
        lemma_distance_symmetric(a@, b@);
        lemma_distance_at_most_longer(a@, b@);
        if edit_distance(a@, b@) == 0 {
            lemma_distance_zero_only_to_self(a@, b@);
        }
    }
    if same_text(a, b) {
        proof {
            lemma_distance_to_self(a@);
        }
        return 0;
    }
    let length_a = a.unicode_len();
    let length_b = b.unicode_len();
    if length_a == 0 {
        return length_b;
    }
    if length_b == 0 {
        return length_a;
    }
    // The row starts as 1, 2, 3, ...: what it costs to make each prefix of
    // `a` out of nothing.
    let mut cache: Vec<usize> = Vec::new();
    let mut filled: usize = 0;
    while filled < length_a
        invariant
            filled <= length_a,
            cache.len() == filled,
            forall|k: int| 0 <= k < filled ==> cache[k] == k + 1,
        decreases length_a - filled,
    {
        filled = filled + 1;
        cache.push(filled);
    }
    assert forall|k: int| 0 <= k < length_a implies cache[k] == prefix_distance(
        a@,
        b@,
        k + 1,
        0,
    ) by {}
    let mut result: usize = 0;
    let mut index_b: usize = 0;
    for code_b in row: b.chars()
        invariant
            row.seq() == b@,
            index_b == row.index(),
            length_a == a@.len(),
            length_b == b@.len(),
            length_a > 0,
            cache.len() == length_a,
            forall|k: int| 0 <= k < length_a ==> cache[k] == prefix_distance(a@, b@, k + 1, index_b as int),
            index_b > 0 ==> result == prefix_distance(a@, b@, length_a as int, index_b as int),
    {
        // `distance_a` is the entry up and to the left of the one being
        // filled in, `result` the one to its left.
        result = index_b;
        let mut distance_a: usize = index_b;
        let mut index_a: usize = 0;
        for code_a in column: a.chars()
            invariant
                column.seq() == a@,
                index_a == column.index(),
                index_b < length_b,
                length_a == a@.len(),
                length_b == b@.len(),
                code_b == b@[index_b as int],
                cache.len() == length_a,
                distance_a == prefix_distance(a@, b@, index_a as int, index_b as int),
                index_a == 0 ==> result == index_b,
                index_a > 0 ==> result == prefix_distance(a@, b@, index_a as int, index_b + 1),
                forall|k: int| 0 <= k < index_a ==> cache[k] == prefix_distance(a@, b@, k + 1, index_b + 1),
                forall|k: int| index_a <= k < length_a ==> cache[k] == prefix_distance(a@, b@, k + 1, index_b as int),
        {
            proof {
                lemma_prefix_step(a@, b@, index_a as int, index_b as int);
                lemma_distance_at_most_longer(a@.take(index_a as int), b@.take(index_b as int));
            }
            let distance_b = if code_a == code_b {
                distance_a
            } else {
                distance_a + 1
            };
            distance_a = cache[index_a];
            result = if distance_a > result {
                if distance_b > result {
                    result + 1
                } else {
                    distance_b
                }
            } else if distance_b > distance_a {
                distance_a + 1
            } else {
                distance_b
            };
            cache.set(index_a, result);
            index_a = index_a + 1;
        }
        index_b = index_b + 1;
    }
    proof {
        assert(a@.take(length_a as int) == a@);
        assert(b@.take(length_b as int) == b@);
    }
    result
}

} // verus!
