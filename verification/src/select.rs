use vstd::prelude::*;
use crate::error::MatchError;
use crate::index::MatchedPeakIndex;
use crate::sequence::{lemma_push_contains, lemma_push_no_duplicates};
use crate::table::{check_shape, column, column_of, rows, shape_fault, well_shaped};

verus! {

/// Peak `a` ranks at least as high as peak `b`: it is the more intense of the
/// two, or as intense and not the earlier one. Among equally intense peaks the
/// one met last in a scan therefore ranks highest.
pub open spec fn ranks_no_lower(intensity: Seq<u64>, a: int, b: int) -> bool {
    intensity[b] < intensity[a] || (intensity[b] == intensity[a] && b <= a)
}

/// Among the first `n` peaks, `k` is marked and no marked peak ranks above it.
pub open spec fn is_best_of_first(matched: Seq<bool>, intensity: Seq<u64>, n: int, k: int) -> bool {
    &&& 0 <= k < n
    &&& matched[k]
    &&& forall|other: int|
        0 <= other < n && #[trigger] matched[other] ==> ranks_no_lower(intensity, k, other)
}

/// Peak `k` is the best of the marked peaks: it is marked, and no marked peak
/// ranks above it.
pub open spec fn is_best(matched: Seq<bool>, intensity: Seq<u64>, k: int) -> bool {
    is_best_of_first(matched, intensity, matched.len() as int, k)
}

/// The pair `m` is what the forward pass picks for query peak `m.0`: of the
/// reference peaks within tolerance of it, `m.1` is the best by reference
/// intensity.
pub open spec fn is_forward_candidate(
    table: Seq<Seq<bool>>,
    reference_intensity: Seq<u64>,
    m: MatchedPeakIndex,
) -> bool {
    m.0 < table.len() && is_best(table[m.0 as int], reference_intensity, m.1 as int)
}

/// The pair `m` is what the backward pass picks for reference peak `m.1`: of
/// the query peaks within tolerance of it, `m.0` is the best by query
/// intensity.
pub open spec fn is_backward_candidate(
    table: Seq<Seq<bool>>,
    query_intensity: Seq<u64>,
    m: MatchedPeakIndex,
) -> bool {
    &&& m.0 < table.len()
    &&& m.1 < table[m.0 as int].len()
    &&& is_best(column(table, m.1 as int), query_intensity, m.0 as int)
}

/// A candidate is a pair picked by the forward pass, the backward pass, or both.
pub open spec fn is_candidate(
    table: Seq<Seq<bool>>,
    query_intensity: Seq<u64>,
    reference_intensity: Seq<u64>,
    m: MatchedPeakIndex,
) -> bool {
    is_forward_candidate(table, reference_intensity, m) || is_backward_candidate(
        table,
        query_intensity,
        m,
    )
}

/// `best` is the outcome of picking the best of the marked peaks: the best
/// one where there is one, and nothing where no peak is marked.
pub open spec fn is_pick(best: Option<usize>, matched: Seq<bool>, intensity: Seq<u64>) -> bool {
    match best {
        Some(k) => is_best(matched, intensity, k as int),
        None => forall|k: int| !is_best(matched, intensity, k),
    }
}

/// The marked peaks have at most one best.
pub proof fn lemma_best_is_unique(matched: Seq<bool>, intensity: Seq<u64>, a: int, b: int)
    requires
        is_best(matched, intensity, a),
        is_best(matched, intensity, b),
    ensures
        a == b,
{
}

/// A pick names the best of the marked peaks and no other peak.
pub proof fn lemma_pick_is_the_best(
    best: Option<usize>,
    matched: Seq<bool>,
    intensity: Seq<u64>,
    k: usize,
)
    requires
        is_pick(best, matched, intensity),
    ensures
        best == Some(k) <==> is_best(matched, intensity, k as int),
{
    if let Some(b) = best {
        if is_best(matched, intensity, k as int) {
            lemma_best_is_unique(matched, intensity, k as int, b as int);
        }
    }
}

/// Picks the best of the marked peaks: the most intense one, and among equally
/// intense ones the last.
pub(crate) fn best_by_intensity(matched: &Vec<bool>, intensity: &Vec<u64>) -> (best: Option<usize>)
    requires
        matched.len() == intensity.len(),
    ensures
        is_pick(best, matched@, intensity@),
{
    let mut best: Option<usize> = None;
    let mut k: usize = 0;
    while k < matched.len()
        invariant
            k <= matched.len(),
            matched.len() == intensity.len(),
            match best {
                Some(b) => is_best_of_first(matched@, intensity@, k as int, b as int),
                None => forall|t: int| 0 <= t < k ==> !matched[t],
            },
        decreases matched.len() - k,
    {
        if matched[k] {
            let keep: bool = match best {
                Some(b) => intensity[b] > intensity[k],
                None => false,
            };
            if !keep {
                best = Some(k);
            }
        }
        k += 1;
    }
    best
}

/// The candidate pairs of two spectra: for each query peak the best reference
/// peak within tolerance of it, and for each reference peak the best query
/// peak within tolerance of it. A pair picked from both sides is listed once.
///
/// `within[i][j]` says whether query peak `i` lies within tolerance of
/// reference peak `j`. The intensities are unsigned ranks: a higher number is
/// a more intense peak.
pub fn candidate_matches(
    within: &Vec<Vec<bool>>,
    query_intensity: &Vec<u64>,
    reference_intensity: &Vec<u64>,
) -> (res: Result<Vec<MatchedPeakIndex>, MatchError>)
    ensures
        match res {
            Ok(candidates) => {
                &&& shape_fault(
                    rows(within@),
                    query_intensity.len() as nat,
                    reference_intensity.len() as nat,
                ) is None
                &&& candidates@.no_duplicates()
                &&& forall|m: MatchedPeakIndex|
                    candidates@.contains(m) <==> is_candidate(
                        rows(within@),
                        query_intensity@,
                        reference_intensity@,
                        m,
                    )
            },
            Err(e) => shape_fault(
                rows(within@),
                query_intensity.len() as nat,
                reference_intensity.len() as nat,
            ) == Some(e),
        },
{
    if let Err(e) = check_shape(within, query_intensity.len(), reference_intensity.len()) {
        return Err(e);
    }
    let ghost table = rows(within@);
    let mut candidates: Vec<MatchedPeakIndex> = Vec::new();
    let mut forward: Vec<Option<usize>> = Vec::new();
    let mut i: usize = 0;
    while i < within.len()
        invariant
            table == rows(within@),
            well_shaped(table, query_intensity.len() as nat, reference_intensity.len() as nat),
            i <= within.len(),
            forward.len() == i,
            forall|k: int|
                0 <= k < i ==> is_pick(#[trigger] forward[k], table[k], reference_intensity@),
            candidates@.no_duplicates(),
            forall|m: MatchedPeakIndex|
                candidates@.contains(m) <==> (m.0 < i && is_forward_candidate(
                    table,
                    reference_intensity@,
                    m,
                )),
        decreases within.len() - i,
    {
        assert(table[i as int] == within[i as int]@);
        let best: Option<usize> = best_by_intensity(&within[i], reference_intensity);
        let ghost before = candidates@;
        match best {
            Some(j) => {
                proof {
                    lemma_push_contains(before, MatchedPeakIndex(i, j));
                    lemma_push_no_duplicates(before, MatchedPeakIndex(i, j));
                }
                candidates.push(MatchedPeakIndex(i, j));
            },
            None => {},
        }
        proof {
            assert forall|m: MatchedPeakIndex|
                candidates@.contains(m) <==> (m.0 < i + 1 && is_forward_candidate(
                    table,
                    reference_intensity@,
                    m,
                )) by {
                lemma_pick_is_the_best(best, table[i as int], reference_intensity@, m.1);
                if m.0 == i && best == Some(m.1) {
                    assert(m == MatchedPeakIndex(i, m.1));
                }
                assert(before.contains(m) <==> m.0 < i && is_forward_candidate(
                    table,
                    reference_intensity@,
                    m,
                ));
            }
        }
        forward.push(best);
        i += 1;
    }
    let mut j: usize = 0;
    while j < reference_intensity.len()
        invariant
            table == rows(within@),
            well_shaped(table, query_intensity.len() as nat, reference_intensity.len() as nat),
            j <= reference_intensity.len(),
            forward.len() == within.len(),
            forall|k: int|
                0 <= k < forward.len() ==> is_pick(
                    #[trigger] forward[k],
                    table[k],
                    reference_intensity@,
                ),
            candidates@.no_duplicates(),
            forall|m: MatchedPeakIndex|
                candidates@.contains(m) <==> (is_forward_candidate(table, reference_intensity@, m)
                    || (m.1 < j && is_backward_candidate(table, query_intensity@, m))),
        decreases reference_intensity.len() - j,
    {
        assert forall|k: int| 0 <= k < within.len() implies j < (#[trigger] within[k]).len() by {
            assert(table[k].len() == reference_intensity.len());
        }
        let col: Vec<bool> = column_of(within, j);
        let best: Option<usize> = best_by_intensity(&col, query_intensity);
        let ghost before = candidates@;
        match best {
            Some(q) => {
                let already: bool = match forward[q] {
                    Some(f) => f == j,
                    None => false,
                };
                proof {
                    lemma_pick_is_the_best(
                        forward[q as int],
                        table[q as int],
                        reference_intensity@,
                        j,
                    );
                }
                if !already {
                    proof {
                        lemma_push_contains(before, MatchedPeakIndex(q, j));
                        lemma_push_no_duplicates(before, MatchedPeakIndex(q, j));
                    }
                    candidates.push(MatchedPeakIndex(q, j));
                }
            },
            None => {},
        }
        proof {
            assert forall|m: MatchedPeakIndex|
                candidates@.contains(m) <==> (is_forward_candidate(table, reference_intensity@, m)
                    || (m.1 < j + 1 && is_backward_candidate(table, query_intensity@, m))) by {
                lemma_pick_is_the_best(best, col@, query_intensity@, m.0);
                if m.1 == j && best == Some(m.0) {
                    assert(m == MatchedPeakIndex(m.0, j));
                    assert(table[m.0 as int].len() == reference_intensity.len());
                }
                assert(before.contains(m) <==> is_forward_candidate(
                    table,
                    reference_intensity@,
                    m,
                ) || (m.1 < j && is_backward_candidate(table, query_intensity@, m)));
            }
        }
        j += 1;
    }
    Ok(candidates)
}

} // verus!
