use vstd::prelude::*;
use crate::error::MatchError;
use crate::index::MatchedPeakIndex;
use crate::sequence::{lemma_push_contains, lemma_push_no_duplicates};

verus! {

/// Candidate `k` prevails: every candidate in conflict with it gives way to
/// it, being lighter, or as heavy and earlier by query and reference index.
pub open spec fn prevails(candidates: Seq<MatchedPeakIndex>, weights: Seq<u128>, k: int) -> bool {
    forall|other: int|
        0 <= other < candidates.len() && candidates[k].conflicts_with(#[trigger] candidates[other])
            ==> candidates[other].yields_to(
            weights[other] as int,
            candidates[k],
            weights[k] as int,
        )
}

/// Those of the first `n` candidates that prevail, in the order given. Each
/// candidate is judged against the whole list, never against what is left of
/// it.
pub open spec fn survivors(candidates: Seq<MatchedPeakIndex>, weights: Seq<u128>, n: int) -> Seq<
    MatchedPeakIndex,
>
    decreases n,
{
    if n <= 0 {
        Seq::empty()
    } else if prevails(candidates, weights, n - 1) {
        survivors(candidates, weights, n - 1).push(candidates[n - 1])
    } else {
        survivors(candidates, weights, n - 1)
    }
}

/// A pair is among the survivors exactly when it stands at a position that
/// prevails.
pub proof fn lemma_survivors_contains(
    candidates: Seq<MatchedPeakIndex>,
    weights: Seq<u128>,
    n: int,
    m: MatchedPeakIndex,
)
    requires
        0 <= n <= candidates.len(),
    ensures
        survivors(candidates, weights, n).contains(m) <==> exists|k: int|
            0 <= k < n && #[trigger] candidates[k] == m && prevails(candidates, weights, k),
    decreases n,
{
    if n > 0 {
        lemma_survivors_contains(candidates, weights, n - 1, m);
        let rest = survivors(candidates, weights, n - 1);
        if prevails(candidates, weights, n - 1) {
            lemma_push_contains(rest, candidates[n - 1]);
        }
        if survivors(candidates, weights, n).contains(m) {
            if rest.contains(m) {
                let k = choose|k: int|
                    0 <= k < n - 1 && #[trigger] candidates[k] == m && prevails(
                        candidates,
                        weights,
                        k,
                    );
                assert(0 <= k < n && candidates[k] == m && prevails(candidates, weights, k));
            } else {
                assert(candidates[n - 1] == m && prevails(candidates, weights, n - 1));
            }
        }
    } else {
        assert(survivors(candidates, weights, n) =~= Seq::empty());
    }
}

/// Candidates that come without repeats leave survivors without repeats.
pub proof fn lemma_survivors_no_duplicates(
    candidates: Seq<MatchedPeakIndex>,
    weights: Seq<u128>,
    n: int,
)
    requires
        0 <= n <= candidates.len(),
        candidates.no_duplicates(),
    ensures
        survivors(candidates, weights, n).no_duplicates(),
    decreases n,
{
    if n > 0 {
        lemma_survivors_no_duplicates(candidates, weights, n - 1);
        if prevails(candidates, weights, n - 1) {
            let rest = survivors(candidates, weights, n - 1);
            lemma_survivors_contains(candidates, weights, n - 1, candidates[n - 1]);
            lemma_push_no_duplicates(rest, candidates[n - 1]);
        }
    }
}

/// No two survivors share a query peak or a reference peak.
pub proof fn lemma_survivors_share_no_peak(
    candidates: Seq<MatchedPeakIndex>,
    weights: Seq<u128>,
    a: MatchedPeakIndex,
    b: MatchedPeakIndex,
)
    requires
        survivors(candidates, weights, candidates.len() as int).contains(a),
        survivors(candidates, weights, candidates.len() as int).contains(b),
    ensures
        !a.conflicts_with(b),
{
    let n = candidates.len() as int;
    lemma_survivors_contains(candidates, weights, n, a);
    lemma_survivors_contains(candidates, weights, n, b);
    let i = choose|i: int|
        0 <= i < n && #[trigger] candidates[i] == a && prevails(candidates, weights, i);
    let j = choose|j: int|
        0 <= j < n && #[trigger] candidates[j] == b && prevails(candidates, weights, j);
    if a.conflicts_with(b) {
        assert(candidates[i].conflicts_with(candidates[j]));
        assert(candidates[j].conflicts_with(candidates[i]));
    }
}

/// Decides whether candidate `k` prevails.
pub(crate) fn prevails_at(candidates: &Vec<MatchedPeakIndex>, weights: &Vec<u128>, k: usize) -> (wins:
    bool)
    requires
        candidates.len() == weights.len(),
        k < candidates.len(),
    ensures
        wins == prevails(candidates@, weights@, k as int),
{
    let mut wins: bool = true;
    let mut other: usize = 0;
    while other < candidates.len()
        invariant
            other <= candidates.len(),
            candidates.len() == weights.len(),
            k < candidates.len(),
            wins <==> forall|o: int|
                0 <= o < other && candidates[k as int].conflicts_with(#[trigger] candidates[o])
                    ==> candidates[o].yields_to(
                    weights[o] as int,
                    candidates[k as int],
                    weights[k as int] as int,
                ),
        decreases candidates.len() - other,
    {
        if candidates[k].in_conflict(&candidates[other]) {
            let gives_way: bool = weights[other] < weights[k] || (weights[other] == weights[k]
                && candidates[other].comes_before(&candidates[k]));
            if !gives_way {
                wins = false;
            }
        }
        other += 1;
    }
    wins
}

/// Prunes a list of candidates. Of two candidates that share a query peak or
/// a reference peak the lighter one is dropped; where they weigh the same, the
/// one that comes first by query index, then by reference index, is dropped.
/// Every candidate is compared with the list as it was given: a candidate that
/// is itself dropped still drops those that give way to it. What stays is in
/// the order in which it was given.
///
/// `weights[k]` is the weight of `candidates[k]`: an unsigned rank of the
/// summed intensity of its two peaks.
pub fn resolve_conflicts(candidates: &Vec<MatchedPeakIndex>, weights: &Vec<u128>) -> (res: Result<
    Vec<MatchedPeakIndex>,
    MatchError,
>)
    ensures
        match res {
            Ok(kept) => {
                &&& candidates.len() == weights.len()
                &&& kept@ == survivors(candidates@, weights@, candidates.len() as int)
            },
            Err(e) => candidates.len() != weights.len() && e == MatchError::WeightLengthMismatch,
        },
{
    if candidates.len() != weights.len() {
        return Err(MatchError::WeightLengthMismatch);
    }
    let mut kept: Vec<MatchedPeakIndex> = Vec::new();
    let mut k: usize = 0;
    while k < candidates.len()
        invariant
            k <= candidates.len(),
            candidates.len() == weights.len(),
            kept@ == survivors(candidates@, weights@, k as int),
        decreases candidates.len() - k,
    {
        if prevails_at(candidates, weights, k) {
            kept.push(candidates[k]);
        }
        k += 1;
    }
    Ok(kept)
}

} // verus!
