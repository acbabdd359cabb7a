//! The central-scan variant: an alternate cut-selection strategy.
//!
//! The variant satisfies the same external contract as the standard scanner —
//! an ordered, boundary-covering cut sequence over the same parameters — via
//! a different internal search policy, which is an open design choice.  The
//! policy chosen here: each cut is placed as close as possible to the ideal
//! cut row (one target height below the previous boundary) by searching
//! outward from that row, alternately below and above, for a row whose
//! successor row is near-identical; if no such row exists within one target
//! height, the cut is forced at the ideal row.

use vstd::prelude::*;
use vstd::assert_seqs_equal;

use crate::buffer::{ImgView, PixelBuffer, rows_within, row_pair_within};
use crate::params::ScanParameters;
use crate::scan::boundary_coverage;

verus! {

/// The row the outward search picks: the first row at distance `off`,
/// `off + 1`, ... from `ideal` (looking below before above) that lies in
/// `[lo, hi]` and whose successor row is within the threshold, or `ideal`
/// itself when the search radius is exhausted.
pub open spec fn outward_pick(
    v: ImgView,
    t: int,
    ideal: int,
    lo: int,
    hi: int,
    off: int,
    radius: int,
) -> int
    decreases radius + 1 - off when off <= radius + 1
{
    if off > radius {
        ideal
    } else if lo <= ideal - off <= hi && rows_within(v, ideal - off, ideal - off + 1, t) {
        ideal - off
    } else if lo <= ideal + off <= hi && rows_within(v, ideal + off, ideal + off + 1, t) {
        ideal + off
    } else {
        outward_pick(v, t, ideal, lo, hi, off + 1, radius)
    }
}

/// The outward search never leaves `[lo, hi]` except to fall back on the
/// ideal row itself.
proof fn lemma_outward_pick_range(
    v: ImgView,
    t: int,
    ideal: int,
    lo: int,
    hi: int,
    off: int,
    radius: int,
)
    requires
        0 <= off <= radius + 1,
    ensures
        outward_pick(v, t, ideal, lo, hi, off, radius) == ideal || (lo <= outward_pick(
            v,
            t,
            ideal,
            lo,
            hi,
            off,
            radius,
        ) <= hi),
    decreases radius + 1 - off,
{
    if off > radius {
    } else if lo <= ideal - off <= hi && rows_within(v, ideal - off, ideal - off + 1, t) {
    } else if lo <= ideal + off <= hi && rows_within(v, ideal + off, ideal + off + 1, t) {
    } else {
        lemma_outward_pick_range(v, t, ideal, lo, hi, off + 1, radius);
    }
}

/// The cuts the central strategy commits below boundary `b`.  The two clamps
/// keep the fold well-founded; `lemma_central_cut_in_range` shows they never
/// fire.
pub open spec fn central_from(v: ImgView, p: ScanParameters, b: int) -> Seq<int>
    decreases v.height - b when 0 <= b && p.target_segment_height >= 1
{
    let target = p.target_segment_height as int;
    if b + target >= v.height {
        Seq::empty()
    } else {
        let pick = outward_pick(v, p.threshold as int, b + target, b + 1, v.height - 2, 0, target);
        let cut = if pick <= b {
            b + 1
        } else if pick >= v.height {
            v.height - 1
        } else {
            pick
        };
        seq![cut] + central_from(v, p, cut)
    }
}

/// Under the fold's own guard the picked cut already lies strictly between
/// the previous boundary and the image height, so the clamps are inert.
proof fn lemma_central_cut_in_range(v: ImgView, p: ScanParameters, b: int)
    requires
        0 <= b,
        p.target_segment_height >= 1,
        b + p.target_segment_height < v.height,
    ensures
        ({
            let pick = outward_pick(
                v,
                p.threshold as int,
                b + p.target_segment_height,
                b + 1,
                v.height - 2,
                0,
                p.target_segment_height as int,
            );
            b < pick < v.height
        }),
{
    lemma_outward_pick_range(
        v,
        p.threshold as int,
        b + p.target_segment_height,
        b + 1,
        v.height - 2,
        0,
        p.target_segment_height as int,
    );
}

/// The boundary sequence of the central strategy: the leading 0, the
/// committed cuts, and the image height.
pub open spec fn central_spec(v: ImgView, p: ScanParameters) -> Seq<int> {
    let cuts = if p.target_segment_height >= 1 {
        central_from(v, p, 0)
    } else {
        Seq::empty()
    };
    (seq![0int] + cuts).push(v.height)
}

/// Every committed cut lies strictly between the previous boundary and the
/// image height, in strictly increasing order.
proof fn lemma_central_from_sorted(v: ImgView, p: ScanParameters, b: int)
    requires
        0 <= b,
        p.target_segment_height >= 1,
    ensures
        ({
            let s = central_from(v, p, b);
            &&& forall|i: int| 0 <= i < s.len() ==> b < #[trigger] s[i] < v.height
            &&& forall|i: int| 0 <= i < s.len() - 1 ==> #[trigger] s[i] < s[i + 1]
        }),
    decreases v.height - b,
{
    let target = p.target_segment_height as int;
    if b + target >= v.height {
    } else {
        lemma_central_cut_in_range(v, p, b);
        let pick = outward_pick(v, p.threshold as int, b + target, b + 1, v.height - 2, 0, target);
        let cut = if pick <= b {
            b + 1
        } else if pick >= v.height {
            v.height - 1
        } else {
            pick
        };
        lemma_central_from_sorted(v, p, cut);
        let rest = central_from(v, p, cut);
        let s = central_from(v, p, b);
        assert(s == seq![cut] + rest);
        assert forall|i: int| 0 <= i < s.len() implies b < #[trigger] s[i] < v.height by {
            if i == 0 {
                assert(s[i] == cut);
            } else {
                assert(s[i] == rest[i - 1]);
            }
        }
        assert forall|i: int| 0 <= i < s.len() - 1 implies #[trigger] s[i] < s[i + 1] by {
            if i == 0 {
                assert(s[0] == cut && s[1] == rest[0]);
            } else {
                assert(s[i] == rest[i - 1] && s[i + 1] == rest[i]);
            }
        }
    }
}

/// Boundary coverage of the central strategy's output.
pub proof fn lemma_central_coverage(v: ImgView, p: ScanParameters)
    requires
        p.wf(),
        v.height >= 1,
    ensures
        boundary_coverage(central_spec(v, p), v.height),
{
    if p.target_segment_height >= 1 {
        lemma_central_from_sorted(v, p, 0);
    }
}

/// The central cut-line discovery: places each cut as near as possible to one
/// target height below the previous boundary, searching outward from that
/// ideal row for a near-identical row pair, exactly as `central_spec`
/// describes.  Like the standard scanner it is deterministic: the result is a
/// function of the buffer contents and the parameters alone.
pub fn central_boundaries(img: &PixelBuffer, p: &ScanParameters) -> (r: Vec<usize>)
    requires
        img@.wf(),
        img@.height >= 1,
        p.wf(),
    ensures
        r@.map_values(|x: usize| x as int) == central_spec(img@, *p),
        boundary_coverage(r@.map_values(|x: usize| x as int), img@.height),
{
    let height = img.height;
    let target = p.target_segment_height;
    let threshold = p.threshold;
    let mut bounds: Vec<usize> = Vec::new();
    bounds.push(0);
    if target >= 1 {
        let mut b: usize = 0;
        while target < height - b
            invariant
                img@.wf(),
                p.wf(),
                height == img@.height,
                target == p.target_segment_height,
                threshold == p.threshold,
                target >= 1,
                b < height,
                bounds@.len() >= 1,
                bounds@.map_values(|x: usize| x as int) + central_from(img@, *p, b as int)
                    == seq![0int] + central_from(img@, *p, 0),
            decreases height - b,
        {
            let ideal = b + target;
            let ghost lo = b as int + 1;
            let ghost hi = img@.height - 2;
            let mut off: usize = 0;
            let mut pick: usize = ideal;
            while off <= target
                invariant_except_break
                    img@.wf(),
                    height == img@.height,
                    b < height,
                    target >= 1,
                    ideal == b + target,
                    ideal < height,
                    lo == b as int + 1,
                    hi == img@.height - 2,
                    off <= target + 1,
                    pick == ideal,
                    outward_pick(img@, threshold as int, ideal as int, lo, hi, 0, target as int)
                        == outward_pick(
                        img@,
                        threshold as int,
                        ideal as int,
                        lo,
                        hi,
                        off as int,
                        target as int,
                    ),
                ensures
                    pick as int == outward_pick(
                        img@,
                        threshold as int,
                        ideal as int,
                        lo,
                        hi,
                        0,
                        target as int,
                    ),
                    b < pick < height,
                decreases target + 1 - off,
            {
                let down_ok = off < target && ideal - off <= height - 2;
                if down_ok && row_pair_within(img, ideal - off, ideal - off + 1, threshold) {
                    pick = ideal - off;
                    break ;
                }
                let up_ok = ideal <= height - 2 && off <= (height - 2) - ideal;
                if up_ok && row_pair_within(img, ideal + off, ideal + off + 1, threshold) {
                    pick = ideal + off;
                    break ;
                }
                off = off + 1;
            }
            let ghost b_old = b as int;
            let ghost old_map = bounds@.map_values(|x: usize| x as int);
            bounds.push(pick);
            b = pick;
            proof {
                lemma_central_cut_in_range(img@, *p, b_old);
                assert(central_from(img@, *p, b_old) == seq![pick as int]
                    + central_from(img@, *p, pick as int));
                assert_seqs_equal!(
                    bounds@.map_values(|x: usize| x as int),
                    old_map.push(pick as int)
                );
                assert_seqs_equal!(
                    bounds@.map_values(|x: usize| x as int)
                        + central_from(img@, *p, b as int),
                    old_map + central_from(img@, *p, b_old)
                );
            }
        }
    }
    proof {
        assert(bounds@.map_values(|x: usize| x as int) =~= seq![0int] + (if p.target_segment_height
            >= 1 {
            central_from(img@, *p, 0)
        } else {
            Seq::<int>::empty()
        }));
    }
    bounds.push(height);
    proof {
        assert_seqs_equal!(bounds@.map_values(|x: usize| x as int), central_spec(img@, *p));
        lemma_central_coverage(img@, *p);
    }
    bounds
}

} // verus!
