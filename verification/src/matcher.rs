use vstd::prelude::*;
use crate::error::MatchError;
use crate::index::MatchedPeakIndex;
use crate::resolve::{
    lemma_survivors_contains,
    lemma_survivors_no_duplicates,
    prevails,
    resolve_conflicts,
};
use crate::select::{candidate_matches, is_candidate, is_forward_candidate};
use crate::table::{rows, shape_fault, well_shaped, within_tolerance};

verus! {

/// The summed intensity of a pair: the intensity of its query peak plus that
/// of its reference peak.
pub open spec fn summed_intensity(
    query_intensity: Seq<u64>,
    reference_intensity: Seq<u64>,
    m: MatchedPeakIndex,
) -> int {
    query_intensity[m.0 as int] + reference_intensity[m.1 as int]
}

/// The pair `m` is a match: it is a candidate, and every candidate in conflict
/// with it gives way to it, having the lower summed intensity, or the same and
/// coming first.
pub open spec fn is_match(
    table: Seq<Seq<bool>>,
    query_intensity: Seq<u64>,
    reference_intensity: Seq<u64>,
    m: MatchedPeakIndex,
) -> bool {
    &&& is_candidate(table, query_intensity, reference_intensity, m)
    &&& forall|other: MatchedPeakIndex|
        #[trigger] is_candidate(table, query_intensity, reference_intensity, other)
            && m.conflicts_with(other) ==> other.yields_to(
            summed_intensity(query_intensity, reference_intensity, other),
            m,
            summed_intensity(query_intensity, reference_intensity, m),
        )
}

/// The matches of two spectra, as a set.
pub open spec fn match_set(
    table: Seq<Seq<bool>>,
    query_intensity: Seq<u64>,
    reference_intensity: Seq<u64>,
) -> Set<MatchedPeakIndex> {
    Set::new(|m: MatchedPeakIndex| is_match(table, query_intensity, reference_intensity, m))
}

/// No query peak lies within tolerance of any reference peak.
pub open spec fn nothing_within_tolerance(table: Seq<Seq<bool>>) -> bool {
    forall|m: MatchedPeakIndex| !within_tolerance(table, m)
}

/// No two distinct pairs within tolerance share a peak: each query peak has at
/// most one reference peak within tolerance, and each reference peak at most
/// one query peak.
pub open spec fn one_to_one(table: Seq<Seq<bool>>) -> bool {
    forall|a: MatchedPeakIndex, b: MatchedPeakIndex|
        #[trigger] within_tolerance(table, a) && #[trigger] within_tolerance(table, b) ==> !a.conflicts_with(b)
}

/// A candidate pairs two peaks that lie within tolerance of each other.
pub proof fn lemma_candidate_within_tolerance(
    table: Seq<Seq<bool>>,
    query_intensity: Seq<u64>,
    reference_intensity: Seq<u64>,
    m: MatchedPeakIndex,
)
    requires
        is_candidate(table, query_intensity, reference_intensity, m),
    ensures
        within_tolerance(table, m),
{
}

/// Every match names a peak of the query spectrum and a peak of the reference
/// spectrum, and the two lie within tolerance of each other.
pub proof fn lemma_match_in_range(
    table: Seq<Seq<bool>>,
    query_intensity: Seq<u64>,
    reference_intensity: Seq<u64>,
    m: MatchedPeakIndex,
)
    requires
        well_shaped(table, query_intensity.len(), reference_intensity.len()),
        is_match(table, query_intensity, reference_intensity, m),
    ensures
        m.0 < query_intensity.len(),
        m.1 < reference_intensity.len(),
        within_tolerance(table, m),
{
}

/// No two matches share a query peak or a reference peak.
pub proof fn lemma_matches_share_no_peak(
    table: Seq<Seq<bool>>,
    query_intensity: Seq<u64>,
    reference_intensity: Seq<u64>,
    a: MatchedPeakIndex,
    b: MatchedPeakIndex,
)
    requires
        is_match(table, query_intensity, reference_intensity, a),
        is_match(table, query_intensity, reference_intensity, b),
    ensures
        !a.conflicts_with(b),
{
    if a.conflicts_with(b) {
        assert(b.conflicts_with(a));
    }
}

/// Where no query peak lies within tolerance of any reference peak, nothing
/// is matched.
pub proof fn lemma_disjoint_spectra_have_no_match(
    table: Seq<Seq<bool>>,
    query_intensity: Seq<u64>,
    reference_intensity: Seq<u64>,
)
    requires
        nothing_within_tolerance(table),
    ensures
        match_set(table, query_intensity, reference_intensity) == Set::<MatchedPeakIndex>::empty(),
{
    assert forall|m: MatchedPeakIndex|
        !is_match(table, query_intensity, reference_intensity, m) by {
        if is_candidate(table, query_intensity, reference_intensity, m) {
            lemma_candidate_within_tolerance(table, query_intensity, reference_intensity, m);
        }
    }
    assert(match_set(table, query_intensity, reference_intensity) =~= Set::<
        MatchedPeakIndex,
    >::empty());
}

/// The matches are a function of the inputs: two lists that each hold exactly
/// the matches of the same spectra, without repeats, hold the same pairs and
/// are of the same length.
pub proof fn lemma_same_inputs_same_matches(
    table: Seq<Seq<bool>>,
    query_intensity: Seq<u64>,
    reference_intensity: Seq<u64>,
    first: Seq<MatchedPeakIndex>,
    second: Seq<MatchedPeakIndex>,
)
    requires
        first.no_duplicates(),
        second.no_duplicates(),
        first.to_set() == match_set(table, query_intensity, reference_intensity),
        second.to_set() == match_set(table, query_intensity, reference_intensity),
    ensures
        first.to_set() == second.to_set(),
        first.len() == second.len(),
{
    first.unique_seq_to_set();
    second.unique_seq_to_set();
}

/// In a one-to-one case the matches are exactly the pairs within tolerance,
/// and no peak is matched twice.
pub proof fn lemma_one_to_one_matches_all(
    table: Seq<Seq<bool>>,
    query_intensity: Seq<u64>,
    reference_intensity: Seq<u64>,
)
    requires
        query_intensity.len() <= usize::MAX,
        reference_intensity.len() <= usize::MAX,
        well_shaped(table, query_intensity.len(), reference_intensity.len()),
        one_to_one(table),
    ensures
        forall|m: MatchedPeakIndex|
            is_match(table, query_intensity, reference_intensity, m) <==> within_tolerance(
                table,
                m,
            ),
        forall|a: MatchedPeakIndex, b: MatchedPeakIndex|
            is_match(table, query_intensity, reference_intensity, a) && is_match(
                table,
                query_intensity,
                reference_intensity,
                b,
            ) && a != b ==> a.0 != b.0 && a.1 != b.1,
{
    assert forall|m: MatchedPeakIndex| within_tolerance(table, m) implies is_forward_candidate(
        table,
        reference_intensity,
        m,
    ) by {
        let row = table[m.0 as int];
        assert forall|other: int| 0 <= other < row.len() && #[trigger] row[other] implies other
            == m.1 by {
            let b = MatchedPeakIndex(m.0, other as usize);
            assert(within_tolerance(table, b));
            assert(!m.conflicts_with(b));
        }
    }
    assert forall|m: MatchedPeakIndex|
        is_candidate(table, query_intensity, reference_intensity, m) implies within_tolerance(
        table,
        m,
    ) by {
        lemma_candidate_within_tolerance(table, query_intensity, reference_intensity, m);
    }
    assert forall|m: MatchedPeakIndex| within_tolerance(table, m) implies is_match(
        table,
        query_intensity,
        reference_intensity,
        m,
    ) by {
        assert(is_candidate(table, query_intensity, reference_intensity, m));
        assert forall|other: MatchedPeakIndex|
            #[trigger] is_candidate(table, query_intensity, reference_intensity, other)
                && m.conflicts_with(other) implies other.yields_to(
            summed_intensity(query_intensity, reference_intensity, other),
            m,
            summed_intensity(query_intensity, reference_intensity, m),
        ) by {
            assert(within_tolerance(table, other));
        }
    }
}

/// Matches the peaks of a query spectrum to the peaks of a reference spectrum.
///
/// For each query peak the most intense reference peak within tolerance of it
/// is picked, and for each reference peak the most intense query peak within
/// tolerance of it; among equally intense peaks the last one is picked. Of two
/// picked pairs that share a peak, the one with the lower summed intensity is
/// dropped, and where the sums are equal the one that comes first by query
/// index, then by reference index. Each pair is judged against all picked
/// pairs, whether or not those stay themselves: a pair can be dropped by one
/// that is dropped in its turn. The matches come without repeats and in no
/// particular order.
///
/// `within[i][j]` says whether query peak `i` lies within tolerance of
/// reference peak `j`. Intensities are whole numbers; their sum is the exact
/// sum. A table that does not have one row per query peak, each with one entry
/// per reference peak, is turned down.
pub fn match_peaks(
    within: &Vec<Vec<bool>>,
    query_intensity: &Vec<u64>,
    reference_intensity: &Vec<u64>,
) -> (res: Result<Vec<MatchedPeakIndex>, MatchError>)
    ensures
        match res {
            Ok(matches) => {
                &&& shape_fault(
                    rows(within@),
                    query_intensity.len() as nat,
                    reference_intensity.len() as nat,
                ) is None
                &&& matches@.no_duplicates()
                &&& matches@.to_set() == match_set(
                    rows(within@),
                    query_intensity@,
                    reference_intensity@,
                )
                &&& forall|k: int|
                    0 <= k < matches.len() ==> (#[trigger] matches[k]).0 < query_intensity.len()
                        && matches[k].1 < reference_intensity.len()
                &&& nothing_within_tolerance(rows(within@)) ==> matches.len() == 0
            },
            Err(e) => shape_fault(
                rows(within@),
                query_intensity.len() as nat,
                reference_intensity.len() as nat,
            ) == Some(e),
        },
{
    let candidates: Vec<MatchedPeakIndex> = match candidate_matches(
        within,
        query_intensity,
        reference_intensity,
    ) {
        Ok(c) => c,
        Err(e) => {
            return Err(e);
        },
    };
    let ghost table = rows(within@);
    let mut weights: Vec<u128> = Vec::new();
    let mut k: usize = 0;
    while k < candidates.len()
        invariant
            k <= candidates.len(),
            weights.len() == k,
            table == rows(within@),
            well_shaped(table, query_intensity.len() as nat, reference_intensity.len() as nat),
            forall|m: MatchedPeakIndex|
                candidates@.contains(m) ==> is_candidate(
                    table,
                    query_intensity@,
                    reference_intensity@,
                    m,
                ),
            forall|t: int|
                0 <= t < k ==> #[trigger] weights[t] == summed_intensity(
                    query_intensity@,
                    reference_intensity@,
                    candidates[t],
                ),
        decreases candidates.len() - k,
    {
        let c: MatchedPeakIndex = candidates[k];
        assert(candidates@.contains(c));
        assert(within_tolerance(table, c));
        let weight: u128 = query_intensity[c.0] as u128 + reference_intensity[c.1] as u128;
        weights.push(weight);
        k += 1;
    }
    match resolve_conflicts(&candidates, &weights) {
        Ok(matches) => {
            proof {
                let n = candidates.len() as int;
                lemma_survivors_no_duplicates(candidates@, weights@, n);
                assert forall|m: MatchedPeakIndex|
                    matches@.contains(m) <==> is_match(
                        table,
                        query_intensity@,
                        reference_intensity@,
                        m,
                    ) by {
                    lemma_survivors_contains(candidates@, weights@, n, m);
                    lemma_prevailing_candidate_is_match(
                        table,
                        query_intensity@,
                        reference_intensity@,
                        candidates@,
                        weights@,
                        m,
                    );
                }
                assert(matches@.to_set() =~= match_set(
                    table,
                    query_intensity@,
                    reference_intensity@,
                ));
                assert forall|t: int| 0 <= t < matches.len() implies (#[trigger] matches[t]).0
                    < query_intensity.len() && matches[t].1 < reference_intensity.len() by {
                    assert(matches@.contains(matches[t]));
                    lemma_match_in_range(
                        table,
                        query_intensity@,
                        reference_intensity@,
                        matches[t],
                    );
                }
                if nothing_within_tolerance(table) && matches.len() > 0 {
                    assert(matches@.contains(matches[0]));
                    lemma_match_in_range(
                        table,
                        query_intensity@,
                        reference_intensity@,
                        matches[0],
                    );
                }
            }
            Ok(matches)
        },
        // One weight was made for each candidate, so nothing is turned down here.
        Err(e) => Err(e),
    }
}

/// Where a list holds exactly the candidates and each weight is the summed
/// intensity of its candidate, a pair stands at a prevailing position exactly
/// when it is a match.
proof fn lemma_prevailing_candidate_is_match(
    table: Seq<Seq<bool>>,
    query_intensity: Seq<u64>,
    reference_intensity: Seq<u64>,
    candidates: Seq<MatchedPeakIndex>,
    weights: Seq<u128>,
    m: MatchedPeakIndex,
)
    requires
        candidates.len() == weights.len(),
        forall|c: MatchedPeakIndex|
            candidates.contains(c) <==> is_candidate(
                table,
                query_intensity,
                reference_intensity,
                c,
            ),
        forall|t: int|
            0 <= t < candidates.len() ==> #[trigger] weights[t] == summed_intensity(
                query_intensity,
                reference_intensity,
                candidates[t],
            ),
    ensures
        is_match(table, query_intensity, reference_intensity, m) <==> exists|k: int|
            0 <= k < candidates.len() && #[trigger] candidates[k] == m && prevails(
                candidates,
                weights,
                k,
            ),
{
    if is_match(table, query_intensity, reference_intensity, m) {
        assert(candidates.contains(m));
        let k = choose|k: int| 0 <= k < candidates.len() && candidates[k] == m;
        assert forall|other: int|
            0 <= other < candidates.len() && candidates[k].conflicts_with(
                #[trigger] candidates[other],
            ) implies candidates[other].yields_to(
            weights[other] as int,
            candidates[k],
            weights[k] as int,
        ) by {
            assert(candidates.contains(candidates[other]));
        }
        assert(candidates[k] == m && prevails(candidates, weights, k));
    }
    if exists|k: int|
        0 <= k < candidates.len() && #[trigger] candidates[k] == m && prevails(
            candidates,
            weights,
            k,
        ) {
        let k = choose|k: int|
            0 <= k < candidates.len() && #[trigger] candidates[k] == m && prevails(
                candidates,
                weights,
                k,
            );
        assert(candidates.contains(m));
        assert forall|other: MatchedPeakIndex|
            #[trigger] is_candidate(table, query_intensity, reference_intensity, other)
                && m.conflicts_with(other) implies other.yields_to(
            summed_intensity(query_intensity, reference_intensity, other),
            m,
            summed_intensity(query_intensity, reference_intensity, m),
        ) by {
            assert(candidates.contains(other));
            let o = choose|o: int| 0 <= o < candidates.len() && candidates[o] == other;
            assert(candidates[k].conflicts_with(candidates[o]));
        }
    }
}

} // verus!
