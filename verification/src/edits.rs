//! What the distance counts.
//!
//! One edit inserts, deletes or replaces a single character. The distance
//! between two texts is the least number of edits that lead from one to the
//! other: some chain of edits is that short, and none is shorter.

use crate::distance::{edit_distance, lemma_distance_to_self};
use vstd::prelude::*;

verus! {

/// `t` is `s` with one character inserted, deleted or replaced.
pub open spec fn one_edit(s: Seq<char>, t: Seq<char>) -> bool {
    ||| exists|k: int, c: char| 0 <= k <= s.len() && t == #[trigger] s.insert(k, c)
    ||| exists|k: int| 0 <= k < s.len() && t == #[trigger] s.remove(k)
    ||| exists|k: int, c: char| 0 <= k < s.len() && t == #[trigger] s.update(k, c)
}

/// Each text of `chain` is one edit from the text before it, the first is
/// `from` and the last is `to`. Such a chain makes `chain.len() - 1` edits.
pub open spec fn leads(chain: Seq<Seq<char>>, from: Seq<char>, to: Seq<char>) -> bool {
    &&& chain.len() > 0
    &&& chain[0] == from
    &&& chain.last() == to
    &&& forall|i: int| #![trigger chain[i]] 0 <= i < chain.len() - 1 ==> one_edit(chain[i], chain[i + 1])
}

/// Dropping the last character of the first text costs at most one edit.
proof fn lemma_shorter_first(x: Seq<char>, y: Seq<char>)
    requires
        x.len() > 0,
    ensures
        edit_distance(x, y) <= edit_distance(x.drop_last(), y) + 1,
{
}

/// Inserting a character into the second text moves the distance by at most
/// one, either way.
proof fn lemma_insertion_moves_by_one(x: Seq<char>, y: Seq<char>, k: int, c: char)
    requires
        0 <= k <= y.len(),
    ensures
        edit_distance(x, y.insert(k, c)) <= edit_distance(x, y) + 1,
        edit_distance(x, y) <= edit_distance(x, y.insert(k, c)) + 1,
    decreases x.len() + y.len(),
{
    let longer = y.insert(k, c);
    y.insert_ensures(k, c);
    if x.len() == 0 {
    } else if k == y.len() {
        assert(longer.drop_last() =~= y);
        lemma_shorter_first(x, y);
        lemma_insertion_moves_by_one(x.drop_last(), y, k, c);
    } else {
        assert(longer.drop_last() =~= y.drop_last().insert(k, c));
        lemma_insertion_moves_by_one(x.drop_last(), y.drop_last(), k, c);
        lemma_insertion_moves_by_one(x.drop_last(), y, k, c);
        lemma_insertion_moves_by_one(x, y.drop_last(), k, c);
    }
}

/// Replacing a character of the second text raises the distance by at most one.
proof fn lemma_replacement_moves_by_one(x: Seq<char>, y: Seq<char>, k: int, c: char)
    requires
        0 <= k < y.len(),
    ensures
        edit_distance(x, y.update(k, c)) <= edit_distance(x, y) + 1,
    decreases x.len() + y.len(),
{
    let other = y.update(k, c);
    if x.len() == 0 {
    } else if k == y.len() - 1 {
        assert(other.drop_last() =~= y.drop_last());
        lemma_replacement_moves_by_one(x.drop_last(), y, k, c);
    } else {
        assert(other.drop_last() =~= y.drop_last().update(k, c));
        lemma_replacement_moves_by_one(x.drop_last(), y.drop_last(), k, c);
        lemma_replacement_moves_by_one(x.drop_last(), y, k, c);
        lemma_replacement_moves_by_one(x, y.drop_last(), k, c);
    }
}

/// One edit of the second text raises the distance by at most one.
pub proof fn lemma_one_edit_moves_by_one(x: Seq<char>, y: Seq<char>, edited: Seq<char>)
    requires
        one_edit(y, edited),
    ensures
        edit_distance(x, edited) <= edit_distance(x, y) + 1,
{
    if exists|k: int, c: char| 0 <= k <= y.len() && edited == #[trigger] y.insert(k, c) {
        let (k, c) = choose|k: int, c: char| 0 <= k <= y.len() && edited == #[trigger] y.insert(k, c);
        lemma_insertion_moves_by_one(x, y, k, c);
    } else if exists|k: int| 0 <= k < y.len() && edited == #[trigger] y.remove(k) {
        let k = choose|k: int| 0 <= k < y.len() && edited == #[trigger] y.remove(k);
        y.remove_ensures(k);
        assert(edited.insert(k, y[k]) =~= y);
        lemma_insertion_moves_by_one(x, edited, k, y[k]);
    } else {
        let (k, c) = choose|k: int, c: char| 0 <= k < y.len() && edited == #[trigger] y.update(k, c);
        lemma_replacement_moves_by_one(x, y, k, c);
    }
}

/// No chain of edits from `from` to `to` is shorter than their distance.
pub proof fn lemma_no_chain_is_shorter(chain: Seq<Seq<char>>, from: Seq<char>, to: Seq<char>)
    requires
        leads(chain, from, to),
    ensures
        edit_distance(from, to) <= chain.len() - 1,
    decreases chain.len(),
{
    if chain.len() == 1 {
        lemma_distance_to_self(from);
    } else {
        let before = chain[chain.len() - 2];
        let shorter = chain.drop_last();
        assert(leads(shorter, from, before));
        lemma_no_chain_is_shorter(shorter, from, before);
        lemma_one_edit_moves_by_one(from, before, to);
    }
}

/// An edit stays an edit when the same character is put behind both texts.
proof fn lemma_edit_before_last(s: Seq<char>, t: Seq<char>, c: char)
    requires
        one_edit(s, t),
    ensures
        one_edit(s.push(c), t.push(c)),
{
    let longer = s.push(c);
    if exists|k: int, d: char| 0 <= k <= s.len() && t == #[trigger] s.insert(k, d) {
        let (k, d) = choose|k: int, d: char| 0 <= k <= s.len() && t == #[trigger] s.insert(k, d);
        assert(t.push(c) =~= longer.insert(k, d));
    } else if exists|k: int| 0 <= k < s.len() && t == #[trigger] s.remove(k) {
        let k = choose|k: int| 0 <= k < s.len() && t == #[trigger] s.remove(k);
        assert(t.push(c) =~= longer.remove(k));
    } else {
        let (k, d) = choose|k: int, d: char| 0 <= k < s.len() && t == #[trigger] s.update(k, d);
        assert(t.push(c) =~= longer.update(k, d));
    }
}

/// Some chain of edits from `from` to `to` is as short as their distance.
pub proof fn lemma_some_chain_is_that_short(from: Seq<char>, to: Seq<char>) -> (chain: Seq<
    Seq<char>,
>)
    ensures
        leads(chain, from, to),
        chain.len() - 1 == edit_distance(from, to),
    decreases from.len() + to.len(),
{
    if from.len() == 0 && to.len() == 0 {
        assert(from =~= to);
        seq![from]
    } else if from.len() == 0 || (to.len() > 0 && edit_distance(from, to) == edit_distance(
        from,
        to.drop_last(),
    ) + 1) {
        // The last character of `to` is inserted at the end.
        let shorter = to.drop_last();
        let start = lemma_some_chain_is_that_short(from, shorter);
        let chain = start.push(to);
        assert(to =~= shorter.insert(shorter.len() as int, to.last()));
        chain
    } else if to.len() == 0 || edit_distance(from, to) == edit_distance(from.drop_last(), to) + 1 {
        // The last character of `from` is deleted first.
        let shorter = from.drop_last();
        let rest = lemma_some_chain_is_that_short(shorter, to);
        let chain = seq![from] + rest;
        assert(shorter =~= from.remove(from.len() - 1));
        chain
    } else {
        // The last characters are matched, or one is replaced by the other.
        let last = from.last();
        let inner = lemma_some_chain_is_that_short(from.drop_last(), to.drop_last());
        let lifted = Seq::new(inner.len(), |i: int| inner[i].push(last));
        assert(lifted[0] =~= from);
        let reached = to.drop_last().push(last);
        assert forall|i: int| #![trigger lifted[i]] 0 <= i < lifted.len() - 1 implies one_edit(
            lifted[i],
            lifted[i + 1],
        ) by {
            lemma_edit_before_last(inner[i], inner[i + 1], last);
        }
        if last == to.last() {
            assert(reached =~= to);
            lifted
        } else {
            let chain = lifted.push(to);
            assert(to =~= reached.update(reached.len() - 1, to.last()));
            chain
        }
    }
}

/// Going by way of a third text is never shorter.
pub proof fn lemma_distance_triangle(a: Seq<char>, b: Seq<char>, c: Seq<char>)
    ensures
        edit_distance(a, c) <= edit_distance(a, b) + edit_distance(b, c),
{
    let first = lemma_some_chain_is_that_short(a, b);
    let second = lemma_some_chain_is_that_short(b, c);
    let chain = first + second.drop_first();
    assert(leads(chain, a, c));
    lemma_no_chain_is_shorter(chain, a, c);
}

} // verus!
