//! Configuration for one slicing invocation.

use vstd::prelude::*;

verus! {

/// Immutable configuration for one scan-validate-extract run.
#[derive(Clone, Copy, Debug)]
pub struct ScanParameters {
    /// Largest per-channel difference under which two rows still count as
    /// near-identical.
    pub threshold: u8,
    /// Desired number of rows per extracted segment.  Cuts are deferred until
    /// a segment has at least this many rows.
    pub target_segment_height: usize,
    /// Width of the row band used to confirm that a candidate cut line sits
    /// inside a genuinely uniform zone, not a one-row coincidence.
    pub aura_margin: usize,
    /// Stride at which rows are examined, trading precision for speed.
    pub scan_step: usize,
}

impl ScanParameters {
    /// Parameters a scan can actually run with: a stride of zero would never
    /// advance through the image.
    pub open spec fn wf(self) -> bool {
        self.scan_step >= 1
    }
}

} // verus!
