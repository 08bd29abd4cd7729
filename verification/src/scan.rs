//! Classification over plain observations.
//!
//! A scan asks each registered command, in the order of registration, what it
//! makes of a candidate, and notes the answer as a [`Probe`]. What the scan
//! then concludes is a [`Verdict`] over positions in that list; it depends on
//! nothing but the probes and the bound on the distance.

use vstd::prelude::*;

verus! {

/// What one command showed for a candidate.
#[derive(Clone, Copy, Debug, PartialEq, Eq, Structural)]
pub enum Probe {
    /// Its own predicate took the candidate for a direct invocation.
    Exact,
    /// Its predicate declined, and its name is this many edits from the candidate.
    Apart(usize),
    /// Its predicate declined, and no distance was taken.
    Unscored,
}

/// What a scan concludes, by position in the list of probes.
#[derive(Clone, Copy, Debug, PartialEq, Eq, Structural)]
pub enum Verdict {
    /// The command at this position was invoked directly.
    Hit(usize),
    /// No command was invoked directly; the one at this position is the
    /// closest, at this distance, and the distance is within the bound.
    Near(usize, usize),
    /// No command was invoked directly and none is close enough.
    Miss,
}

/// Position `i` holds the first exact probe.
pub open spec fn is_first_exact(probes: Seq<Probe>, i: int) -> bool {
    &&& 0 <= i < probes.len()
    &&& probes[i] is Exact
    &&& forall|j: int| 0 <= j < i ==> !(#[trigger] probes[j] is Exact)
}

/// Position `i` holds the closest scored probe: none is closer, and every
/// earlier one is strictly further away.
pub open spec fn is_nearest(probes: Seq<Probe>, i: int) -> bool {
    &&& 0 <= i < probes.len()
    &&& probes[i] is Apart
    &&& forall|j: int|
        0 <= j < probes.len() && #[trigger] probes[j] is Apart ==> probes[i]->Apart_0
            <= probes[j]->Apart_0
    &&& forall|j: int|
        0 <= j < i && #[trigger] probes[j] is Apart ==> probes[i]->Apart_0 < probes[j]->Apart_0
}

/// The verdict over `probes` under the bound `max_distance`.
///
/// The first exact probe wins outright, whatever the distances are. Without
/// one, the closest scored probe is a near miss if it is within the bound;
/// among equally close ones the earliest counts.
pub open spec fn verdict(probes: Seq<Probe>, max_distance: usize) -> Verdict {
    if exists|i: int| is_first_exact(probes, i) {
        Verdict::Hit((choose|i: int| is_first_exact(probes, i)) as usize)
    } else if exists|i: int| is_nearest(probes, i) {
        let i = choose|i: int| is_nearest(probes, i);
        if probes[i]->Apart_0 <= max_distance {
            Verdict::Near(i as usize, probes[i]->Apart_0)
        } else {
            Verdict::Miss
        }
    } else {
        Verdict::Miss
    }
}

/// No probe of the list is exact.
pub open spec fn none_exact(probes: Seq<Probe>) -> bool {
    forall|i: int| 0 <= i < probes.len() ==> !(#[trigger] probes[i] is Exact)
}

/// At most one position holds the first exact probe.
pub proof fn lemma_first_exact_unique(probes: Seq<Probe>, i: int, j: int)
    requires
        is_first_exact(probes, i),
        is_first_exact(probes, j),
    ensures
        i == j,
{
}

/// At most one position holds the closest scored probe.
pub proof fn lemma_nearest_unique(probes: Seq<Probe>, i: int, j: int)
    requires
        is_nearest(probes, i),
        is_nearest(probes, j),
    ensures
        i == j,
{
}

/// Where any probe is exact, some position holds the first exact one.
pub proof fn lemma_first_exact_exists(probes: Seq<Probe>, k: int)
    requires
        0 <= k < probes.len(),
        probes[k] is Exact,
    ensures
        exists|i: int| is_first_exact(probes, i),
    decreases k,
{
    if exists|j: int| 0 <= j < k && #[trigger] probes[j] is Exact {
        let j = choose|j: int| 0 <= j < k && #[trigger] probes[j] is Exact;
        lemma_first_exact_exists(probes, j);
    } else {
        assert(is_first_exact(probes, k));
    }
}

/// Where any probe is scored, some position holds the closest one.
pub proof fn lemma_nearest_exists(probes: Seq<Probe>, k: int)
    requires
        0 <= k < probes.len(),
        probes[k] is Apart,
    ensures
        exists|i: int| is_nearest(probes, i),
    decreases probes.len(),
{
    let shorter = probes.drop_last();
    let last = probes.len() - 1;
    if exists|j: int| 0 <= j < last && #[trigger] probes[j] is Apart {
        let j = choose|j: int| 0 <= j < last && #[trigger] probes[j] is Apart;
        lemma_nearest_exists(shorter, j);
        let i = choose|i: int| is_nearest(shorter, i);
        assert forall|m: int| 0 <= m < last implies shorter[m] == probes[m] by {}
        if probes[last] is Apart && probes[last]->Apart_0 < probes[i]->Apart_0 {
            assert(is_nearest(probes, last));
        } else {
            assert(is_nearest(probes, i));
        }
    } else {
        assert(is_nearest(probes, last));
    }
}

/// The first exact probe decides, whatever the distances are and whatever
/// follows it.
pub proof fn lemma_first_exact_wins(probes: Seq<Probe>, max_distance: usize, i: int)
    requires
        is_first_exact(probes, i),
    ensures
        verdict(probes, max_distance) == Verdict::Hit(i as usize),
        verdict(probes.take(i + 1), max_distance) == Verdict::Hit(i as usize),
{
    lemma_first_exact_unique(probes, i, choose|k: int| is_first_exact(probes, k));
    let seen = probes.take(i + 1);
    assert(is_first_exact(seen, i));
    lemma_first_exact_unique(seen, i, choose|k: int| is_first_exact(seen, k));
}

/// Without an exact probe the closest scored one decides: it is a near miss
/// if it is within the bound, and otherwise there is none.
pub proof fn lemma_nearest_decides(probes: Seq<Probe>, max_distance: usize, i: int)
    requires
        none_exact(probes),
        is_nearest(probes, i),
    ensures
        verdict(probes, max_distance) == if probes[i]->Apart_0 <= max_distance {
            Verdict::Near(i as usize, probes[i]->Apart_0)
        } else {
            Verdict::Miss
        },
{
    lemma_nearest_unique(probes, i, choose|k: int| is_nearest(probes, k));
}

/// The verdict is a miss exactly when no probe is exact and none is scored
/// within the bound.
pub proof fn lemma_miss_means_nothing_within_bound(probes: Seq<Probe>, max_distance: usize)
    ensures
        verdict(probes, max_distance) is Miss <==> none_exact(probes) && forall|i: int|
            0 <= i < probes.len() && #[trigger] probes[i] is Apart ==> probes[i]->Apart_0
                > max_distance,
{
    if !exists|i: int| is_first_exact(probes, i) {
        assert(none_exact(probes)) by {
            if !none_exact(probes) {
                let k = choose|k: int| 0 <= k < probes.len() && probes[k] is Exact;
                lemma_first_exact_exists(probes, k);
            }
        }
        if exists|i: int| 0 <= i < probes.len() && #[trigger] probes[i] is Apart {
            let k = choose|i: int| 0 <= i < probes.len() && #[trigger] probes[i] is Apart;
            lemma_nearest_exists(probes, k);
        }
    }
}

/// Of two scored probes, the later is never the near miss unless it is
/// strictly closer: between equals the earlier one stands.
pub proof fn lemma_earlier_wins_tie(probes: Seq<Probe>, max_distance: usize, i: int, j: int)
    requires
        probes.len() <= usize::MAX,
        0 <= i < j < probes.len(),
        probes[i] is Apart,
        probes[j] is Apart,
        probes[i]->Apart_0 <= probes[j]->Apart_0,
    ensures
        verdict(probes, max_distance) matches Verdict::Near(at, _) ==> at != j,
{
}

/// Classifies a list of probes.
///
/// The result is [`verdict`] of the list. The second clause says the same
/// without it: which position, if any, the result names, and why.
pub fn classify(probes: &Vec<Probe>, max_distance: usize) -> (v: Verdict)
    ensures
        v == verdict(probes@, max_distance),
        match v {
            Verdict::Hit(at) => is_first_exact(probes@, at as int),
            Verdict::Near(at, distance) => {
                &&& none_exact(probes@)
                &&& is_nearest(probes@, at as int)
                &&& probes@[at as int] == Probe::Apart(distance)
                &&& distance <= max_distance
            },
            Verdict::Miss => {
                &&& none_exact(probes@)
                &&& forall|i: int|
                    0 <= i < probes@.len() && #[trigger] probes@[i] is Apart ==> probes@[i]->Apart_0
                        > max_distance
            },
        },
{
    let mut best: Option<(usize, usize)> = None;
    let mut i: usize = 0;
    while i < probes.len()
        invariant
            i <= probes.len(),
            forall|j: int| 0 <= j < i ==> !(#[trigger] probes@[j] is Exact),
            best is None ==> forall|j: int| 0 <= j < i ==> !(#[trigger] probes@[j] is Apart),
            best matches Some((at, d)) ==> at < i && is_nearest(probes@.take(i as int), at as int)
                && probes@[at as int] == Probe::Apart(d),
        decreases probes.len() - i,
    {
        match probes[i] {
            Probe::Exact => {
                proof {
                    assert(is_first_exact(probes@, i as int));
                    lemma_first_exact_unique(
                        probes@,
                        i as int,
                        choose|k: int| is_first_exact(probes@, k),
                    );
                }
                return Verdict::Hit(i);
            },
            Probe::Apart(d) => {
                let closer = match best {
                    Some((_, least)) => d < least,
                    None => true,
                };
                if closer {
                    best = Some((i, d));
                }
            },
            Probe::Unscored => {},
        }
        i = i + 1;
    }
    proof {
        assert(probes@.take(i as int) == probes@);
    }
    match best {
        Some((at, d)) => {
            proof {
                lemma_nearest_unique(probes@, at as int, choose|k: int| is_nearest(probes@, k));
            }
            if d <= max_distance {
                Verdict::Near(at, d)
            } else {
                Verdict::Miss
            }
        },
        None => Verdict::Miss,
    }
}

} // verus!
