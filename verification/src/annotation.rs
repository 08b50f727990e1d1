use vstd::prelude::*;
use crate::ion::IonSeries;

verus! {

/// One observed peak explained by one theoretical fragment, as an annotator
/// reports it. Readings that are not whole numbers (`peak_mz`,
/// `peak_intensity`, `theo_mz`, `mz_error`) are held as the bits of their
/// IEEE 754 encoding and handed on unread.
#[derive(Clone, Copy, PartialEq, Eq, Debug, Structural)]
pub struct FragmentAnnotation {
    /// Position of the observed peak in its spectrum.
    pub peak_index: usize,
    /// Observed mass-to-charge ratio, 64 bits.
    pub peak_mz: u64,
    /// Observed intensity, 64 bits.
    pub peak_intensity: u64,
    /// Theoretical mass-to-charge ratio of the fragment, 64 bits.
    pub theo_mz: u64,
    /// Error of the observed against the theoretical ratio, 32 bits.
    pub mz_error: u32,
    /// Charge state of the fragment.
    pub charge: i8,
    /// Series of the fragment.
    pub ion_type: IonSeries,
    /// Position of the fragment in the fragmentation table, from 0.
    pub frag_index: u16,
    /// Position of the amino acid in the sequence, from 1.
    pub aa_position: u16,
}

/// An annotated peak in the form handed to the caller: the fields of a
/// `FragmentAnnotation`, with the series given by its label.
#[derive(Clone, PartialEq, Eq, Debug)]
pub struct MatchedFragmentPeak {
    pub peak_index: usize,
    pub peak_mz: u64,
    pub peak_intensity: u64,
    pub theo_mz: u64,
    pub mz_error: u32,
    pub charge: i8,
    pub ion_type: String,
    pub frag_index: u16,
    pub aa_position: u16,
}

impl MatchedFragmentPeak {
    /// This record is the caller's form of `annotation`: every reading is
    /// carried over as it is, and the series is named by its label.
    pub open spec fn presents(self, annotation: FragmentAnnotation) -> bool {
        &&& self.peak_index == annotation.peak_index
        &&& self.peak_mz == annotation.peak_mz
        &&& self.peak_intensity == annotation.peak_intensity
        &&& self.theo_mz == annotation.theo_mz
        &&& self.mz_error == annotation.mz_error
        &&& self.charge == annotation.charge
        &&& self.ion_type@ == annotation.ion_type.label()
        &&& self.frag_index == annotation.frag_index
        &&& self.aa_position == annotation.aa_position
    }
}

impl FragmentAnnotation {
    /// Puts an annotation into the form handed to the caller.
    pub fn into_fragment_peak(self) -> (peak: MatchedFragmentPeak)
        ensures
            peak.presents(self),
    {
        MatchedFragmentPeak {
            peak_index: self.peak_index,
            peak_mz: self.peak_mz,
            peak_intensity: self.peak_intensity,
            theo_mz: self.theo_mz,
            mz_error: self.mz_error,
            charge: self.charge,
            ion_type: self.ion_type.as_str().to_owned(),
            frag_index: self.frag_index,
            aa_position: self.aa_position,
        }
    }
}

/// The series for which a spectrum is annotated: b and y.
pub fn annotation_series() -> (series: Vec<IonSeries>)
    ensures
        series@ == seq![IonSeries::B, IonSeries::Y],
{
    let mut series: Vec<IonSeries> = Vec::new();
    series.push(IonSeries::B);
    series.push(IonSeries::Y);
    assert(series@ =~= seq![IonSeries::B, IonSeries::Y]);
    series
}

/// The charge states for which a spectrum is annotated: 1 to 4.
pub fn annotation_charges() -> (charges: Vec<i8>)
    ensures
        charges@ == seq![1i8, 2i8, 3i8, 4i8],
{
    let mut charges: Vec<i8> = Vec::new();
    charges.push(1);
    charges.push(2);
    charges.push(3);
    charges.push(4);
    assert(charges@ =~= seq![1i8, 2i8, 3i8, 4i8]);
    charges
}

/// Puts a list of annotations into the form handed to the caller, one record
/// for each annotation and in the same order.
pub fn fragment_peaks(annotations: &Vec<FragmentAnnotation>) -> (peaks: Vec<MatchedFragmentPeak>)
    ensures
        peaks.len() == annotations.len(),
        forall|k: int| 0 <= k < peaks.len() ==> (#[trigger] peaks[k]).presents(annotations[k]),
{
    let mut peaks: Vec<MatchedFragmentPeak> = Vec::new();
    let mut k: usize = 0;
    while k < annotations.len()
        invariant
            k <= annotations.len(),
            peaks.len() == k,
            forall|t: int| 0 <= t < k ==> (#[trigger] peaks[t]).presents(annotations[t]),
        decreases annotations.len() - k,
    {
        peaks.push(annotations[k].into_fragment_peak());
        k += 1;
    }
    peaks
}

} // verus!
