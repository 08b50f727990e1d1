use vstd::prelude::*;
use crate::error::MatchError;
use crate::index::MatchedPeakIndex;

verus! {

/// The tolerance table as a matrix: row `i` belongs to query peak `i`, and its
/// entry `j` says whether that peak lies within tolerance of reference peak `j`.
pub open spec fn rows(within: Seq<Vec<bool>>) -> Seq<Seq<bool>> {
    Seq::new(within.len(), |i: int| within[i]@)
}

/// A table is well shaped for `queries` query peaks and `references` reference
/// peaks when it has `queries` rows of `references` entries each.
pub open spec fn well_shaped(table: Seq<Seq<bool>>, queries: nat, references: nat) -> bool {
    &&& table.len() == queries
    &&& forall|i: int| 0 <= i < table.len() ==> (#[trigger] table[i]).len() == references
}

/// What is wrong with the shape of a table, if anything. A wrong number of
/// rows is reported before a wrong row.
pub open spec fn shape_fault(table: Seq<Seq<bool>>, queries: nat, references: nat) -> Option<
    MatchError,
> {
    if table.len() != queries {
        Some(MatchError::QueryLengthMismatch)
    } else if !well_shaped(table, queries, references) {
        Some(MatchError::ReferenceLengthMismatch)
    } else {
        None
    }
}

/// The pair `m` names an entry of the table, and that entry is set.
pub open spec fn within_tolerance(table: Seq<Seq<bool>>, m: MatchedPeakIndex) -> bool {
    &&& m.0 < table.len()
    &&& m.1 < table[m.0 as int].len()
    &&& table[m.0 as int][m.1 as int]
}

/// Column `j` of the table: for each query peak, whether it lies within
/// tolerance of reference peak `j`.
pub open spec fn column(table: Seq<Seq<bool>>, j: int) -> Seq<bool> {
    Seq::new(table.len(), |i: int| table[i][j])
}

/// Checks the shape of a tolerance table against the two spectra's lengths.
/// The number of rows is looked at first, then each row in turn.
pub fn check_shape(within: &Vec<Vec<bool>>, queries: usize, references: usize) -> (res: Result<
    (),
    MatchError,
>)
    ensures
        match res {
            Ok(_) => shape_fault(rows(within@), queries as nat, references as nat) is None,
            Err(e) => shape_fault(rows(within@), queries as nat, references as nat) == Some(e),
        },
{
    if within.len() != queries {
        return Err(MatchError::QueryLengthMismatch);
    }
    let mut i: usize = 0;
    while i < within.len()
        invariant
            i <= within.len(),
            within.len() == queries,
            forall|k: int| 0 <= k < i ==> (#[trigger] rows(within@)[k]).len() == references,
        decreases within.len() - i,
    {
        if within[i].len() != references {
            assert(rows(within@)[i as int].len() != references);
            return Err(MatchError::ReferenceLengthMismatch);
        }
        i += 1;
    }
    Ok(())
}

/// Copies column `j` out of a table.
pub(crate) fn column_of(within: &Vec<Vec<bool>>, j: usize) -> (col: Vec<bool>)
    requires
        forall|i: int| 0 <= i < within.len() ==> j < (#[trigger] within[i]).len(),
    ensures
        col@ == column(rows(within@), j as int),
{
    let mut col: Vec<bool> = Vec::new();
    let mut i: usize = 0;
    while i < within.len()
        invariant
            i <= within.len(),
            col.len() == i,
            forall|k: int| 0 <= k < within.len() ==> j < (#[trigger] within[k]).len(),
            forall|k: int| 0 <= k < i ==> col[k] == within[k][j as int],
        decreases within.len() - i,
    {
        col.push(within[i][j]);
        i += 1;
    }
    assert(col@ =~= column(rows(within@), j as int));
    col
}

} // verus!
