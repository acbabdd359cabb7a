//! Row-difference scanner and aura-margin validator.
//!
//! The scanner walks the buffer row by row at a configurable stride, keeping
//! the most recent row whose successor is near-identical (the candidate split
//! line).  Once the current segment has grown past the target height, the
//! candidate is handed to the aura-margin validator, which confirms that a
//! whole band of rows around the cut agrees with the split row before the cut
//! is committed.

use vstd::prelude::*;
use vstd::assert_seqs_equal;

use crate::buffer::{ImgView, PixelBuffer, rows_within, row_pair_within};
use crate::params::ScanParameters;

verus! {

/// A well-formed cut-boundary sequence over an image of height `h`: starts at
/// 0, ends at `h`, strictly increasing, every entry in range.
pub open spec fn boundary_coverage(s: Seq<int>, h: int) -> bool {
    &&& s.len() >= 2
    &&& s[0] == 0
    &&& s.last() == h
    &&& forall|i: int| 0 <= i < s.len() - 1 ==> #[trigger] s[i] < s[i + 1]
    &&& forall|i: int| 0 <= i < s.len() ==> 0 <= #[trigger] s[i] <= h
}

/// The whole forward aura band above `split` agrees with the split row.
pub open spec fn forward_band_ok(v: ImgView, split: int, margin: int, t: int) -> bool {
    forall|off: int| 1 <= off < margin ==> #[trigger] rows_within(v, split, split + off, t)
}

/// Where the backward search stops: the first offset in `[off0, end)` whose
/// row lies above the image top or differs from the split row beyond `t`, or
/// `end - 1` when every examined row agrees.
pub open spec fn backward_stop(v: ImgView, split: int, t: int, off0: int, end: int) -> int
    decreases end - off0 when off0 <= end
{
    if off0 >= end {
        end - 1
    } else if off0 > split || !rows_within(v, split - off0, split, t) {
        off0
    } else {
        backward_stop(v, split, t, off0 + 1, end)
    }
}

/// The validated cut line for a candidate `split`.  Near the bottom of the
/// image the check is skipped and the candidate is accepted unchanged; when
/// the forward band is uniform the candidate is accepted; otherwise rows are
/// searched backward, and half the searched distance is subtracted as a
/// correction.
pub open spec fn validate_spec(v: ImgView, split: int, margin: int, t: int) -> int {
    if split + margin >= v.height {
        split
    } else if forward_band_ok(v, split, margin, t) {
        split
    } else {
        split - backward_stop(v, split, t, 1, 2 * margin) / 2
    }
}

proof fn lemma_backward_stop_bounds(v: ImgView, split: int, t: int, off0: int, end: int)
    requires
        0 <= split,
        1 <= off0 <= end,
        off0 <= split + 1,
    ensures
        0 <= backward_stop(v, split, t, off0, end) <= split + 1,
    decreases end - off0,
{
    if off0 >= end {
    } else if off0 > split || !rows_within(v, split - off0, split, t) {
    } else {
        lemma_backward_stop_bounds(v, split, t, off0 + 1, end);
    }
}

/// The validator never moves a cut line below row 0 or above the candidate.
pub proof fn lemma_validate_bounds(v: ImgView, split: int, margin: int, t: int)
    requires
        0 <= split,
        0 <= margin,
    ensures
        0 <= validate_spec(v, split, margin, t) <= split,
{
    if split + margin >= v.height {
    } else if forward_band_ok(v, split, margin, t) {
    } else {
        assert(margin >= 2);
        lemma_backward_stop_bounds(v, split, t, 1, 2 * margin);
        let stop = backward_stop(v, split, t, 1, 2 * margin);
        assert(0 <= stop / 2 <= split);
    }
}

/// Confirms or adjusts a candidate cut line, as `validate_spec` states.  The
/// validator never indexes a row outside the buffer, and when the aura band
/// would reach past the bottom of the image it returns the candidate
/// unchanged.
pub fn validate_split(img: &PixelBuffer, split: usize, aura_margin: usize, threshold: u8) -> (r:
    usize)
    requires
        img@.wf(),
        split < img@.height,
    ensures
        r as int == validate_spec(img@, split as int, aura_margin as int, threshold as int),
        r <= split,
        split + aura_margin >= img@.height ==> r == split,
{
    let height = img.height;
    if aura_margin >= height - split {
        return split;
    }
    // The forward band: rows split + 1 .. split + aura_margin - 1.
    let mut off: usize = 1;
    let mut fwd_ok = true;
    while off < aura_margin
        invariant
            img@.wf(),
            split < img@.height,
            split + aura_margin < img@.height,
            1 <= off,
            aura_margin >= 1 ==> off <= aura_margin,
            aura_margin == 0 ==> off == 1,
            fwd_ok <==> (forall|o: int|
                1 <= o < off ==> #[trigger] rows_within(img@, split as int, split + o, threshold as int)),
        decreases aura_margin - off,
    {
        if !row_pair_within(img, split, split + off, threshold) {
            fwd_ok = false;
        }
        off = off + 1;
    }
    assert(fwd_ok <==> forward_band_ok(img@, split as int, aura_margin as int, threshold as int));
    if fwd_ok {
        return split;
    }
    // The forward band failed, so the band was not vacuous.
    assert(aura_margin >= 2);
    let end: u128 = 2 * (aura_margin as u128);
    let mut boff: u128 = 1;
    let mut stop: u128 = end - 1;
    while boff < end
        invariant_except_break
            img@.wf(),
            split < img@.height,
            aura_margin >= 2,
            end as int == 2 * (aura_margin as int),
            1 <= boff <= end,
            boff as int <= split as int + 1,
            stop as int == end as int - 1,
            backward_stop(img@, split as int, threshold as int, 1, end as int) == backward_stop(
                img@,
                split as int,
                threshold as int,
                boff as int,
                end as int,
            ),
        ensures
            stop as int <= split as int + 1,
            stop as int == backward_stop(img@, split as int, threshold as int, 1, end as int),
        decreases end - boff,
    {
        if boff > (split as u128) {
            stop = boff;
            break ;
        }
        let o = boff as usize;
        if !row_pair_within(img, split - o, split, threshold) {
            stop = boff;
            break ;
        }
        boff = boff + 1;
    }
    let corr = (stop / 2) as usize;
    assert(corr <= split);
    split - corr
}

/// The scanner's running state: the best low-variation row seen so far, the
/// row index at which the next cut must be attempted, and the boundaries
/// committed so far.
pub ghost struct ScanState {
    pub split: int,
    pub next_crop: int,
    pub bounds: Seq<int>,
}

/// Addition capped at `usize::MAX`, mirroring the machine's saturating add.
pub open spec fn sat_add_usize(a: int, b: int) -> int {
    if a + b > usize::MAX {
        usize::MAX as int
    } else {
        a + b
    }
}

/// The state before any row has been examined: split line 0, first required
/// crop point one target height down, and the unconditional leading boundary.
pub open spec fn init_state(target: int) -> ScanState {
    ScanState { split: 0, next_crop: target, bounds: seq![0int] }
}

/// One examined row: if the row has reached the next required crop point, the
/// current split line is validated and, when it advances past the last
/// committed boundary, committed as a cut (resetting the required crop point
/// one target height below it); then the row pair `(row, row + 1)` is
/// measured and, if near-identical, `row` becomes the new best split line.
pub open spec fn scan_step_spec(v: ImgView, p: ScanParameters, row: int, st: ScanState) -> ScanState {
    let st1 = if row >= st.next_crop {
        let cut = validate_spec(v, st.split, p.aura_margin as int, p.threshold as int);
        if cut > st.bounds.last() {
            ScanState {
                split: cut,
                next_crop: sat_add_usize(cut, p.target_segment_height as int),
                bounds: st.bounds.push(cut),
            }
        } else {
            st
        }
    } else {
        st
    };
    if rows_within(v, row, row + 1, p.threshold as int) {
        ScanState { split: row, next_crop: st1.next_crop, bounds: st1.bounds }
    } else {
        st1
    }
}

/// Folds the scanner over the examined rows `row, row + step, ...`, ending at
/// the last row pair of the image.
pub open spec fn scan_from(v: ImgView, p: ScanParameters, row: int, st: ScanState) -> ScanState
    decreases v.height - row when p.wf() && 0 <= row
{
    if row >= v.height - 1 {
        st
    } else {
        let next = if row + p.scan_step <= v.height - 1 {
            row + p.scan_step
        } else {
            v.height - 1
        };
        scan_from(v, p, next, scan_step_spec(v, p, row, st))
    }
}

/// The boundary sequence of one scan: the fold's committed boundaries with
/// the image height appended as the unconditional terminal boundary.
pub open spec fn scan_spec(v: ImgView, p: ScanParameters) -> Seq<int> {
    scan_from(v, p, 0, init_state(p.target_segment_height as int)).bounds.push(v.height)
}

/// What holds of the scanner state whenever row `row` is about to be
/// examined.
spec fn state_wf(st: ScanState, row: int) -> bool {
    &&& 0 <= st.split <= row
    &&& st.bounds.len() >= 1
    &&& st.bounds[0] == 0
    &&& forall|i: int| 0 <= i < st.bounds.len() - 1 ==> #[trigger] st.bounds[i] < st.bounds[i + 1]
    &&& forall|i: int| 0 <= i < st.bounds.len() ==> 0 <= #[trigger] st.bounds[i] <= st.bounds.last()
    &&& st.bounds.last() <= st.split
}

/// A single scanner step preserves the state invariant.
proof fn lemma_scan_step_wf(v: ImgView, p: ScanParameters, row: int, st: ScanState)
    requires
        0 <= row,
        state_wf(st, row),
    ensures
        state_wf(scan_step_spec(v, p, row, st), row),
        scan_step_spec(v, p, row, st).split <= if st.split >= row {
            st.split
        } else {
            row
        },
{
    if row >= st.next_crop {
        lemma_validate_bounds(v, st.split, p.aura_margin as int, p.threshold as int);
    }
}

/// The scanner fold preserves the state invariant, and its split line never
/// passes the last examined row pair.
proof fn lemma_scan_from_wf(v: ImgView, p: ScanParameters, row: int, st: ScanState)
    requires
        p.wf(),
        0 <= row,
        state_wf(st, row),
    ensures
        state_wf(scan_from(v, p, row, st), if row >= v.height - 1 {
            row
        } else {
            v.height - 2
        }),
    decreases v.height - row,
{
    if row >= v.height - 1 {
    } else {
        let st1 = scan_step_spec(v, p, row, st);
        lemma_scan_step_wf(v, p, row, st);
        let next = if row + p.scan_step <= v.height - 1 {
            row + p.scan_step
        } else {
            v.height - 1
        };
        assert(state_wf(st1, next));
        lemma_scan_from_wf(v, p, next, st1);
    }
}

/// Boundary coverage of every scan: the returned sequence starts at 0, ends
/// at the image height, and is strictly increasing.
pub proof fn lemma_scan_coverage(v: ImgView, p: ScanParameters)
    requires
        p.wf(),
        v.height >= 1,
    ensures
        boundary_coverage(scan_spec(v, p), v.height),
{
    let init = init_state(p.target_segment_height as int);
    assert(state_wf(init, 0));
    lemma_scan_from_wf(v, p, 0, init);
}

/// At every examined row where a cut is due, the validated split line has
/// advanced past the last committed boundary: the scan never stalls waiting
/// for a fresh low-variation row.
pub open spec fn never_stalls_from(v: ImgView, p: ScanParameters, row: int, st: ScanState) -> bool
    decreases v.height - row when p.wf() && 0 <= row
{
    if row >= v.height - 1 {
        true
    } else {
        let ok = row >= st.next_crop ==> validate_spec(
            v,
            st.split,
            p.aura_margin as int,
            p.threshold as int,
        ) > st.bounds.last();
        let next = if row + p.scan_step <= v.height - 1 {
            row + p.scan_step
        } else {
            v.height - 1
        };
        ok && never_stalls_from(v, p, next, scan_step_spec(v, p, row, st))
    }
}

/// The whole scan of an image commits a fresh cut at every due row.
pub open spec fn never_stalls(v: ImgView, p: ScanParameters) -> bool {
    never_stalls_from(v, p, 0, init_state(p.target_segment_height as int))
}

/// The coupled induction behind threshold monotonicity: along the same scan
/// positions, the higher-threshold run keeps a split line at least as far
/// down, commits no more boundaries, and (while the counts agree) has its
/// next required crop point at least as far down.
proof fn lemma_mono_from(
    v: ImgView,
    p1: ScanParameters,
    p2: ScanParameters,
    row: int,
    st1: ScanState,
    st2: ScanState,
)
    requires
        p1.wf(),
        p2.wf(),
        p1.scan_step == p2.scan_step,
        p1.target_segment_height == p2.target_segment_height,
        p1.aura_margin == 0,
        p2.aura_margin == 0,
        p1.threshold <= p2.threshold,
        0 <= row,
        state_wf(st1, row),
        state_wf(st2, row),
        never_stalls_from(v, p1, row, st1),
        st1.split <= st2.split,
        st2.bounds.len() <= st1.bounds.len(),
        st2.bounds.len() == st1.bounds.len() ==> st2.next_crop >= st1.next_crop,
        st1.next_crop <= st1.split + p1.target_segment_height,
        st2.next_crop <= st2.split + p2.target_segment_height,
        st1.next_crop <= usize::MAX,
    ensures
        scan_from(v, p2, row, st2).bounds.len() <= scan_from(v, p1, row, st1).bounds.len(),
    decreases v.height - row,
{
    if row >= v.height - 1 {
    } else {
        let a1 = scan_step_spec(v, p1, row, st1);
        let a2 = scan_step_spec(v, p2, row, st2);
        lemma_scan_step_wf(v, p1, row, st1);
        lemma_scan_step_wf(v, p2, row, st2);
        assert(validate_spec(v, st1.split, 0, p1.threshold as int) == st1.split);
        assert(validate_spec(v, st2.split, 0, p2.threshold as int) == st2.split);
        assert(rows_within(v, row, row + 1, p1.threshold as int) ==> rows_within(
            v,
            row,
            row + 1,
            p2.threshold as int,
        ));
        let next = if row + p1.scan_step <= v.height - 1 {
            row + p1.scan_step
        } else {
            v.height - 1
        };
        assert(state_wf(a1, next));
        assert(state_wf(a2, next));
        lemma_mono_from(v, p1, p2, next, a1, a2);
    }
}

/// Threshold monotonicity: with the aura margin disabled and the
/// lower-threshold scan never stalling, raising the difference threshold can
/// only produce the same number of boundaries or fewer — more rows qualify as
/// safe, so cuts are deferred or eliminated, never added.
pub proof fn lemma_threshold_monotone(v: ImgView, p1: ScanParameters, p2: ScanParameters)
    requires
        p1.wf(),
        p2.wf(),
        p1.scan_step == p2.scan_step,
        p1.target_segment_height == p2.target_segment_height,
        p1.aura_margin == 0,
        p2.aura_margin == 0,
        p1.threshold <= p2.threshold,
        never_stalls(v, p1),
    ensures
        scan_spec(v, p2).len() <= scan_spec(v, p1).len(),
{
    let init = init_state(p1.target_segment_height as int);
    assert(state_wf(init, 0));
    lemma_mono_from(v, p1, p2, 0, init, init);
}

/// Scanning is idempotent: any two boundary lists obtained from the same
/// buffer with the same parameters are equal, because each is the same
/// function of the buffer contents and the parameters alone — the scanner has
/// no hidden randomness or time dependence.
pub proof fn lemma_scan_deterministic(r1: Seq<int>, r2: Seq<int>, v: ImgView, p: ScanParameters)
    requires
        r1 == scan_spec(v, p),
        r2 == scan_spec(v, p),
    ensures
        r1 == r2,
{
}

/// A spec-level scanner state assembled from the executable loop variables.
spec fn abstract_state(split: usize, next_crop: usize, bounds: Seq<usize>) -> ScanState {
    ScanState {
        split: split as int,
        next_crop: next_crop as int,
        bounds: bounds.map_values(|x: usize| x as int),
    }
}

/// The standard cut-line discovery: scans the image at the configured stride
/// and returns the committed boundary list, exactly the fold `scan_spec`
/// describes.  Scanning is deterministic: two runs over the same buffer with
/// the same parameters return the same boundaries, since the result is a
/// function of the buffer contents and the parameters alone.
pub fn scan_boundaries(img: &PixelBuffer, p: &ScanParameters) -> (r: Vec<usize>)
    requires
        img@.wf(),
        img@.height >= 1,
        p.wf(),
    ensures
        r@.map_values(|x: usize| x as int) == scan_spec(img@, *p),
        boundary_coverage(r@.map_values(|x: usize| x as int), img@.height),
{
    let height = img.height;
    let ghost total = scan_from(img@, *p, 0, init_state(p.target_segment_height as int));
    let mut split: usize = 0;
    let mut next_crop: usize = p.target_segment_height;
    let mut bounds: Vec<usize> = Vec::new();
    bounds.push(0);
    proof {
        assert_seqs_equal!(
            abstract_state(split, next_crop, bounds@).bounds,
            init_state(p.target_segment_height as int).bounds
        );
    }
    let mut row: usize = 0;
    while row < height - 1
        invariant
            img@.wf(),
            p.wf(),
            height == img@.height,
            height >= 1,
            row <= height - 1,
            split <= row,
            bounds.len() >= 1,
            scan_from(img@, *p, row as int, abstract_state(split, next_crop, bounds@)) == total,
        decreases height - 1 - row,
    {
        let ghost st_pre = abstract_state(split, next_crop, bounds@);
        if row >= next_crop {
            let cut = validate_split(img, split, p.aura_margin, p.threshold);
            let last = bounds[bounds.len() - 1];
            if cut > last {
                bounds.push(cut);
                split = cut;
                next_crop = cut.saturating_add(p.target_segment_height);
            }
        }
        if row_pair_within(img, row, row + 1, p.threshold) {
            split = row;
        }
        proof {
            let st_post = abstract_state(split, next_crop, bounds@);
            let st_step = scan_step_spec(img@, *p, row as int, st_pre);
            assert_seqs_equal!(st_post.bounds, st_step.bounds);
            assert(st_post == st_step);
        }
        if p.scan_step <= height - 1 - row {
            row = row + p.scan_step;
        } else {
            row = height - 1;
        }
    }
    proof {
        assert(abstract_state(split, next_crop, bounds@) == total);
    }
    bounds.push(height);
    proof {
        assert_seqs_equal!(bounds@.map_values(|x: usize| x as int), scan_spec(img@, *p));
        lemma_scan_coverage(img@, *p);
    }
    bounds
}

} // verus!
