//! The cut-boundary strategy capability and the slicing pipeline.
//!
//! The two nearly identical slicing algorithms — the standard scanner with
//! its aura-margin validator, and the central-scan variant — are two
//! implementations of one polymorphic capability, so that the extraction
//! logic is shared instead of duplicated.

use vstd::prelude::*;

use crate::buffer::PixelBuffer;
use crate::central::{central_boundaries, central_spec};
use crate::params::ScanParameters;
use crate::scan::{boundary_coverage, scan_boundaries, scan_spec};
use crate::segment::{extract_segments, row_range};

verus! {

/// A cut-boundary strategy: any implementation must return an ordered,
/// boundary-covering cut sequence over the whole image.
pub trait CutStrategy {
    /// Produces the cut boundaries for one image under the given parameters.
    fn cut_boundaries(&self, img: &PixelBuffer, p: &ScanParameters) -> (r: Vec<usize>)
        requires
            img@.wf(),
            img@.height >= 1,
            p.wf(),
        ensures
            boundary_coverage(r@.map_values(|x: usize| x as int), img@.height),
    ;
}

/// The standard strategy: row-difference scan plus aura-margin validation.
pub struct StandardScan;

/// The alternate strategy: outward search around each ideal cut row.
pub struct CentralScan;

impl CutStrategy for StandardScan {
    fn cut_boundaries(&self, img: &PixelBuffer, p: &ScanParameters) -> (r: Vec<usize>)
        ensures
            r@.map_values(|x: usize| x as int) == scan_spec(img@, *p),
    {
        scan_boundaries(img, p)
    }
}

impl CutStrategy for CentralScan {
    fn cut_boundaries(&self, img: &PixelBuffer, p: &ScanParameters) -> (r: Vec<usize>)
        ensures
            r@.map_values(|x: usize| x as int) == central_spec(img@, *p),
    {
        central_boundaries(img, p)
    }
}

/// Slices the image along the boundaries the chosen strategy returns.  The
/// segments keep the image's width and channel count, and concatenating them
/// in order reproduces the image's bytes exactly.
pub fn slice_with<S: CutStrategy>(strategy: &S, img: &PixelBuffer, p: &ScanParameters) -> (segs:
    Vec<PixelBuffer>)
    requires
        img@.wf(),
        img@.height >= 1,
        p.wf(),
    ensures
        segs@.len() >= 1,
        forall|i: int|
            0 <= i < segs@.len() ==> {
                &&& (#[trigger] segs@[i])@.wf()
                &&& segs@[i]@.width == img@.width
                &&& segs@[i]@.channels == img@.channels
            },
        segs@.map_values(|s: PixelBuffer| s@.data).flatten() == img@.data,
{
    let bounds = strategy.cut_boundaries(img, p);
    extract_segments(img, &bounds)
}

/// The standard slicing pipeline: scan, validate, extract.  Returns the
/// segments cut along exactly the boundaries of `scan_spec`; concatenating
/// them in order reproduces the buffer byte for byte.
pub fn slasher(img: &PixelBuffer, p: &ScanParameters) -> (segs: Vec<PixelBuffer>)
    requires
        img@.wf(),
        img@.height >= 1,
        p.wf(),
    ensures
        segs@.len() == scan_spec(img@, *p).len() - 1,
        forall|i: int|
            0 <= i < segs@.len() ==> {
                &&& (#[trigger] segs@[i])@.wf()
                &&& segs@[i]@.width == img@.width
                &&& segs@[i]@.channels == img@.channels
                &&& segs@[i]@.height == scan_spec(img@, *p)[i + 1] - scan_spec(img@, *p)[i]
                &&& segs@[i]@.data == row_range(
                    img@,
                    scan_spec(img@, *p)[i],
                    scan_spec(img@, *p)[i + 1],
                )
            },
        segs@.map_values(|s: PixelBuffer| s@.data).flatten() == img@.data,
{
    let bounds = scan_boundaries(img, p);
    let segs = extract_segments(img, &bounds);
    proof {
        let bs = bounds@.map_values(|x: usize| x as int);
        assert(forall|i: int| 0 <= i < bs.len() ==> #[trigger] bs[i] == bounds@[i] as int);
    }
    segs
}

} // verus!
