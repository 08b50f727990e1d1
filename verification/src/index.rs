use vstd::prelude::*;

verus! {

/// A query peak paired with a reference peak. The first field is the position
/// of the peak in the query spectrum, the second its position in the reference
/// spectrum. Two values are the same match when both positions agree.
#[derive(Clone, Copy, PartialEq, Eq, Hash, Debug, Structural)]
pub struct MatchedPeakIndex(pub usize, pub usize);

impl MatchedPeakIndex {
    /// Two distinct matches are in conflict when they claim the same query
    /// peak or the same reference peak.
    pub open spec fn conflicts_with(self, other: MatchedPeakIndex) -> bool {
        self != other && (self.0 == other.0 || self.1 == other.1)
    }

    /// This match comes before `other`: its query peak is the earlier one, or
    /// the query peak is the same and its reference peak is the earlier one.
    pub open spec fn precedes(self, other: MatchedPeakIndex) -> bool {
        self.0 < other.0 || (self.0 == other.0 && self.1 < other.1)
    }

    /// This match, of weight `weight`, gives way to `other`, of weight
    /// `other_weight`: it is the lighter of the two, or as heavy and the one
    /// that comes first.
    pub open spec fn yields_to(self, weight: int, other: MatchedPeakIndex, other_weight: int) -> bool {
        weight < other_weight || (weight == other_weight && self.precedes(other))
    }

    /// Decides `precedes`.
    pub fn comes_before(&self, other: &MatchedPeakIndex) -> (before: bool)
        ensures
            before == self.precedes(*other),
    {
        self.0 < other.0 || (self.0 == other.0 && self.1 < other.1)
    }

    /// Decides `conflicts_with`.
    pub fn in_conflict(&self, other: &MatchedPeakIndex) -> (conflict: bool)
        ensures
            conflict == self.conflicts_with(*other),
    {
        let same_query: bool = self.0 == other.0;
        let same_reference: bool = self.1 == other.1;
        (same_query || same_reference) && !(same_query && same_reference)
    }
}

} // verus!
