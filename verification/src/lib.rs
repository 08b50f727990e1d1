//! Peak correspondence matching between two mass spectra, and the labelling of
//! annotated fragment peaks.
//!
//! A spectrum is a sequence of peaks, and a peak is known by its position in
//! that sequence. Readings enter the library as unsigned integers that order
//! the way the readings do; which query peak lies within tolerance of which
//! reference peak arrives as a table of booleans.

pub mod annotation;
pub mod error;
pub mod index;
pub mod ion;
pub mod matcher;
pub mod rank;
pub mod resolve;
pub mod select;
pub mod sequence;
pub mod spectrum;
pub mod table;

pub use annotation::{
    annotation_charges, annotation_series, fragment_peaks, FragmentAnnotation, MatchedFragmentPeak,
};
pub use error::MatchError;
pub use index::MatchedPeakIndex;
pub use ion::IonSeries;
pub use matcher::match_peaks;
pub use rank::{reading_rank, reading_ranks};
pub use resolve::resolve_conflicts;
pub use select::candidate_matches;
pub use spectrum::pair_peaks;
pub use table::check_shape;
