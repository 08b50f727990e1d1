use biowclib_mz::{
    candidate_matches, match_peaks, reading_rank, reading_ranks, resolve_conflicts, MatchError,
    MatchedPeakIndex,
};

fn sorted_pairs(matches: &[MatchedPeakIndex]) -> Vec<(usize, usize)> {
    let mut pairs: Vec<(usize, usize)> = matches.iter().map(|m| (m.0, m.1)).collect();
    pairs.sort();
    pairs
}

/// An absolute window: the reference reading lies between `low` and `high`
/// away from the query reading.
fn window_table(query_mzs: &[f64], reference_mzs: &[f64], low: f64, high: f64) -> Vec<Vec<bool>> {
    query_mzs
        .iter()
        .map(|q| {
            reference_mzs
                .iter()
                .map(|r| low <= r - q && r - q <= high)
                .collect()
        })
        .collect()
}

fn bits_of(readings: &[f64]) -> Vec<u64> {
    readings.iter().map(|x| x.to_bits()).collect()
}

/// The whole procedure on readings that are not whole numbers: candidates are
/// picked by rank, and each candidate is weighed by the rank of its summed
/// intensity.
fn match_readings(
    within: &Vec<Vec<bool>>,
    query_intensities: &[f64],
    reference_intensities: &[f64],
) -> Result<Vec<(usize, usize)>, MatchError> {
    let query = reading_ranks(&bits_of(query_intensities));
    let reference = reading_ranks(&bits_of(reference_intensities));
    let candidates = candidate_matches(within, &query, &reference)?;
    let weights: Vec<u128> = candidates
        .iter()
        .map(|c| {
            u128::from(reading_rank(
                (query_intensities[c.0] + reference_intensities[c.1]).to_bits(),
            ))
        })
        .collect();
    let kept = resolve_conflicts(&candidates, &weights)?;
    Ok(sorted_pairs(&kept))
}

#[test]
fn single_peak_within_tolerance_is_matched() {
    let within = window_table(&[100.0], &[100.0005], -0.001, 0.001);
    assert_eq!(within, vec![vec![true]]);
    assert_eq!(match_readings(&within, &[10.0], &[50.0]), Ok(vec![(0, 0)]));
    let matches = match_peaks(&within, &vec![10], &vec![50]).unwrap();
    assert_eq!(matches, vec![MatchedPeakIndex(0, 0)]);
}

#[test]
fn most_intense_reference_peak_is_matched() {
    let within = window_table(&[100.0, 200.0], &[100.0, 100.0], -0.01, 0.01);
    assert_eq!(within, vec![vec![true, true], vec![false, false]]);
    assert_eq!(
        match_readings(&within, &[10.0, 5.0], &[1.0, 100.0]),
        Ok(vec![(0, 1)])
    );
    let matches = match_peaks(&within, &vec![10, 5], &vec![1, 100]).unwrap();
    assert_eq!(matches, vec![MatchedPeakIndex(0, 1)]);
}

#[test]
fn heavier_of_two_conflicting_candidates_stays() {
    let candidates = vec![MatchedPeakIndex(0, 0), MatchedPeakIndex(1, 0)];
    let kept = resolve_conflicts(&candidates, &vec![15, 9]).unwrap();
    assert_eq!(kept, vec![MatchedPeakIndex(0, 0)]);
    let kept = resolve_conflicts(&candidates, &vec![9, 15]).unwrap();
    assert_eq!(kept, vec![MatchedPeakIndex(1, 0)]);
}

#[test]
fn heavier_of_two_pairs_on_one_reference_peak_is_matched() {
    // Both query peaks lie within tolerance of the one reference peak; the
    // sums are 10 + 5 = 15 and 4 + 5 = 9.
    let within = vec![vec![true], vec![true]];
    let candidates = candidate_matches(&within, &vec![10, 4], &vec![5]).unwrap();
    assert_eq!(sorted_pairs(&candidates), vec![(0, 0), (1, 0)]);
    let matches = match_peaks(&within, &vec![10, 4], &vec![5]).unwrap();
    assert_eq!(matches, vec![MatchedPeakIndex(0, 0)]);
    assert_eq!(
        match_readings(&within, &[10.0, 4.0], &[5.0]),
        Ok(vec![(0, 0)])
    );
}

#[test]
fn spectra_out_of_tolerance_match_nothing() {
    let within = window_table(&[100.0, 150.0, 300.0], &[120.0, 500.0], -0.5, 0.5);
    assert_eq!(within, vec![vec![false, false]; 3]);
    assert_eq!(
        match_peaks(&within, &vec![7, 8, 9], &vec![1, 2]),
        Ok(vec![])
    );
    assert_eq!(
        candidate_matches(&within, &vec![7, 8, 9], &vec![1, 2]),
        Ok(vec![])
    );
    assert_eq!(
        match_readings(&within, &[7.0, 8.0, 9.0], &[1.0, 2.0]),
        Ok(vec![])
    );
}

#[test]
fn empty_spectra_match_nothing() {
    assert_eq!(match_peaks(&vec![], &vec![], &vec![]), Ok(vec![]));
    assert_eq!(match_peaks(&vec![], &vec![], &vec![3, 4]), Ok(vec![]));
    assert_eq!(
        match_peaks(&vec![vec![], vec![]], &vec![3, 4], &vec![]),
        Ok(vec![])
    );
    assert_eq!(resolve_conflicts(&vec![], &vec![]), Ok(vec![]));
}

#[test]
fn matched_indices_name_peaks_of_their_spectra() {
    let within = vec![
        vec![true, false, true, false],
        vec![true, true, false, false],
        vec![false, true, true, true],
    ];
    let query = vec![40, 20, 30];
    let reference = vec![5, 60, 7, 8];
    let candidates = candidate_matches(&within, &query, &reference).unwrap();
    let matches = match_peaks(&within, &query, &reference).unwrap();
    assert!(!candidates.is_empty());
    assert!(!matches.is_empty());
    for m in candidates.iter().chain(matches.iter()) {
        assert!(m.0 < query.len());
        assert!(m.1 < reference.len());
        assert!(within[m.0][m.1]);
    }
    // forward: (0, 2), (1, 1), (2, 1); backward: (0, 0), (2, 1), (0, 2), (2, 3)
    assert_eq!(
        sorted_pairs(&candidates),
        vec![(0, 0), (0, 2), (1, 1), (2, 1), (2, 3)]
    );
    // sums: (0, 0) 45, (0, 2) 47, (1, 1) 80, (2, 1) 90, (2, 3) 38
    assert_eq!(sorted_pairs(&matches), vec![(0, 2), (2, 1)]);
}

#[test]
fn same_inputs_give_the_same_matches() {
    let within = vec![
        vec![true, true, false],
        vec![false, true, true],
        vec![true, false, true],
    ];
    let query = vec![3, 9, 4];
    let reference = vec![8, 2, 6];
    let first = match_peaks(&within, &query, &reference).unwrap();
    let second = match_peaks(&within, &query, &reference).unwrap();
    assert_eq!(sorted_pairs(&first), sorted_pairs(&second));
    assert_eq!(first.len(), second.len());
    // forward: (0, 0), (1, 2), (2, 0); backward: (2, 0), (1, 1), (1, 2)
    // sums: (0, 0) 11, (1, 2) 15, (2, 0) 12, (1, 1) 11
    assert_eq!(sorted_pairs(&first), vec![(1, 2), (2, 0)]);
}

#[test]
fn one_to_one_table_matches_every_pair_within_tolerance() {
    let within = vec![
        vec![false, true, false, false],
        vec![false, false, false, false],
        vec![true, false, false, false],
        vec![false, false, false, true],
    ];
    let query = vec![1, 1, 1, 1];
    let reference = vec![0, 0, 0, 0];
    let matches = match_peaks(&within, &query, &reference).unwrap();
    assert_eq!(sorted_pairs(&matches), vec![(0, 1), (2, 0), (3, 3)]);
    for a in matches.iter() {
        for b in matches.iter() {
            assert_eq!(a.0 == b.0, a.1 == b.1);
        }
    }
}

#[test]
fn no_two_matches_share_a_peak() {
    let within = vec![vec![true; 4]; 4];
    let query = vec![5, 5, 9, 1];
    let reference = vec![2, 7, 7, 3];
    let matches = match_peaks(&within, &query, &reference).unwrap();
    for (k, a) in matches.iter().enumerate() {
        for b in matches.iter().skip(k + 1) {
            assert_ne!(a.0, b.0);
            assert_ne!(a.1, b.1);
        }
    }
    // forward picks reference 2 for every query peak, backward picks query 2
    // for every reference peak; (2, 2) is the heaviest pair of both groups.
    assert_eq!(matches, vec![MatchedPeakIndex(2, 2)]);
}

#[test]
fn table_with_wrong_number_of_rows_is_refused() {
    let within = vec![vec![true, false]];
    assert_eq!(
        match_peaks(&within, &vec![1, 2], &vec![3, 4]),
        Err(MatchError::QueryLengthMismatch)
    );
    assert_eq!(
        candidate_matches(&within, &vec![], &vec![3, 4]),
        Err(MatchError::QueryLengthMismatch)
    );
    // A wrong number of rows is reported before a wrong row.
    assert_eq!(
        match_peaks(&within, &vec![1, 2], &vec![3]),
        Err(MatchError::QueryLengthMismatch)
    );
}

#[test]
fn row_of_wrong_length_is_refused() {
    let within = vec![vec![true, false], vec![true]];
    assert_eq!(
        match_peaks(&within, &vec![1, 2], &vec![3, 4]),
        Err(MatchError::ReferenceLengthMismatch)
    );
    assert_eq!(
        candidate_matches(&within, &vec![1, 2], &vec![3, 4]),
        Err(MatchError::ReferenceLengthMismatch)
    );
    assert_eq!(
        match_peaks(&vec![vec![true, false]], &vec![1], &vec![3]),
        Err(MatchError::ReferenceLengthMismatch)
    );
}

#[test]
fn readings_that_are_no_numbers_lose() {
    // The second reference peak has no usable intensity: the first is picked,
    // though it comes earlier and is faint.
    let within = vec![vec![true, true]];
    assert_eq!(
        match_readings(&within, &[1.0], &[0.25, f64::NAN]),
        Ok(vec![(0, 0)])
    );
}

#[test]
fn fractional_intensities_are_ranked_exactly() {
    let within = vec![vec![true, true, true]];
    assert_eq!(
        match_readings(&within, &[0.5], &[0.3, 0.30000000000000004, 0.1]),
        Ok(vec![(0, 1)])
    );
}
