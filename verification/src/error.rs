use vstd::prelude::*;

verus! {

/// Why a set of inputs was turned down. Inputs name peaks by position, so the
/// sequences that describe one spectrum must agree in length.
#[derive(Clone, Copy, PartialEq, Eq, Debug, Structural)]
pub enum MatchError {
    /// The tolerance table does not have one row for each query peak.
    QueryLengthMismatch,
    /// A row of the tolerance table does not have one entry for each
    /// reference peak.
    ReferenceLengthMismatch,
    /// The weights do not come one for each candidate.
    WeightLengthMismatch,
    /// The mass-to-charge readings and the intensity readings of one spectrum
    /// differ in number.
    PeakLengthMismatch,
}

impl MatchError {
    /// The wording of each error.
    pub open spec fn message_text(self) -> Seq<char> {
        match self {
            MatchError::QueryLengthMismatch => "tolerance table needs one row per query peak"@,
            MatchError::ReferenceLengthMismatch => "tolerance table rows need one entry per reference peak"@,
            MatchError::WeightLengthMismatch => "weights need one entry per candidate"@,
            MatchError::PeakLengthMismatch => "mz and intensity arrays differ in length"@,
        }
    }

    /// A sentence for the caller.
    pub fn message(&self) -> (text: String)
        ensures
            text@ == self.message_text(),
    {
        match self {
            MatchError::QueryLengthMismatch => "tolerance table needs one row per query peak".to_owned(),
            MatchError::ReferenceLengthMismatch => "tolerance table rows need one entry per reference peak".to_owned(),
            MatchError::WeightLengthMismatch => "weights need one entry per candidate".to_owned(),
            MatchError::PeakLengthMismatch => "mz and intensity arrays differ in length".to_owned(),
        }
    }
}

} // verus!
