use vstd::prelude::*;
use crate::error::MatchError;

verus! {

/// Pairs the mass-to-charge readings of a spectrum with its intensity
/// readings, peak by peak. The two must agree in number.
pub fn pair_peaks<T: Copy>(mzs: &[T], intensities: &[T]) -> (res: Result<Vec<[T; 2]>, MatchError>)
    ensures
        match res {
            Ok(peaks) => {
                &&& mzs.len() == intensities.len()
                &&& peaks.len() == mzs.len()
                &&& forall|k: int|
                    0 <= k < peaks.len() ==> (#[trigger] peaks[k])[0] == mzs[k] && peaks[k][1]
                        == intensities[k]
            },
            Err(e) => mzs.len() != intensities.len() && e == MatchError::PeakLengthMismatch,
        },
{
    if mzs.len() != intensities.len() {
        return Err(MatchError::PeakLengthMismatch);
    }
    let mut peaks: Vec<[T; 2]> = Vec::new();
    let mut k: usize = 0;
    while k < mzs.len()
        invariant
            k <= mzs.len(),
            mzs.len() == intensities.len(),
            peaks.len() == k,
            forall|t: int|
                0 <= t < k ==> (#[trigger] peaks[t])[0] == mzs[t] && peaks[t][1] == intensities[t],
        decreases mzs.len() - k,
    {
        peaks.push([mzs[k], intensities[k]]);
        k += 1;
    }
    Ok(peaks)
}

} // verus!
