//! Slicing a buffer into contiguous segments along a boundary list.

use vstd::prelude::*;
use vstd::assert_seqs_equal;

use crate::buffer::{ImgView, PixelBuffer};
use crate::scan::boundary_coverage;

verus! {

/// The byte range of rows `[start, end)` of an image.
pub open spec fn row_range(v: ImgView, start: int, end: int) -> Seq<u8> {
    v.data.subrange(start * v.row_bytes(), end * v.row_bytes())
}

/// Flattening a sequence of sequences after a push appends the new element.
proof fn lemma_flatten_push<A>(s: Seq<Seq<A>>, elem: Seq<A>)
    ensures
        s.push(elem).flatten() == s.flatten() + elem,
{
    s.lemma_flatten_push(elem);
}

/// Row offsets of rows in range stay inside the buffer and in order, and a
/// segment's byte count is its row count times the bytes per row.
proof fn lemma_row_offset_bounds(h: int, rb: int, a: int, b: int)
    requires
        0 <= a <= b <= h,
        0 <= rb,
    ensures
        0 <= a * rb <= b * rb <= h * rb,
        b * rb - a * rb == (b - a) * rb,
{
    assert(0 <= a * rb <= b * rb <= h * rb && b * rb - a * rb == (b - a) * rb)
        by (nonlinear_arith)
        requires
            0 <= a <= b <= h,
            0 <= rb,
    ;
}

/// The buffer's byte count is its height times its bytes per row.
proof fn lemma_total_bytes(v: ImgView)
    requires
        v.wf(),
    ensures
        v.data.len() == v.height * v.row_bytes(),
{
    assert(v.height * v.width * v.channels == v.height * (v.width * v.channels))
        by (nonlinear_arith);
}

/// Cuts the buffer into `bounds.len() - 1` contiguous segments: segment `i`
/// holds exactly the rows `[bounds[i], bounds[i + 1])`, with the same width
/// and channel count as the source.  Concatenating the segments in boundary
/// order reproduces the source buffer's bytes exactly.
#[verifier::rlimit(60)]
pub fn extract_segments(img: &PixelBuffer, bounds: &Vec<usize>) -> (segs: Vec<PixelBuffer>)
    requires
        img@.wf(),
        boundary_coverage(bounds@.map_values(|x: usize| x as int), img@.height),
    ensures
        segs@.len() == bounds@.len() - 1,
        forall|i: int|
            0 <= i < segs@.len() ==> {
                &&& (#[trigger] segs@[i])@.wf()
                &&& segs@[i]@.width == img@.width
                &&& segs@[i]@.channels == img@.channels
                &&& segs@[i]@.height == bounds@[i + 1] - bounds@[i]
                &&& segs@[i]@.data == row_range(img@, bounds@[i] as int, bounds@[i + 1] as int)
            },
        segs@.map_values(|s: PixelBuffer| s@.data).flatten() == img@.data,
{
    let height = img.height;
    let width = img.width;
    let channels = img.channels;
    let len = img.data.len();
    let ghost bs = bounds@.map_values(|x: usize| x as int);
    proof {
        assert(bs[0] == 0 && bs[0] < bs[1] && 0 <= bs[1] <= img@.height);
        lemma_total_bytes(img@);
        lemma_row_offset_bounds(height as int, img@.row_bytes(), 0, 1);
    }
    let rb = width * channels;
    let n = bounds.len();
    let mut segs: Vec<PixelBuffer> = Vec::new();
    proof {
        assert_seqs_equal!(
            segs@.map_values(|s: PixelBuffer| s@.data).flatten(),
            img@.data.subrange(0, bs[0] * img@.row_bytes())
        );
    }
    let mut i: usize = 0;
    while i < n - 1
        invariant
            img@.wf(),
            bs == bounds@.map_values(|x: usize| x as int),
            boundary_coverage(bs, img@.height),
            height == img@.height,
            width == img@.width,
            channels == img@.channels,
            len == img@.data.len(),
            rb == img@.row_bytes(),
            n == bounds@.len(),
            n >= 2,
            i <= n - 1,
            segs@.len() == i,
            forall|j: int|
                0 <= j < segs@.len() ==> {
                    &&& (#[trigger] segs@[j])@.wf()
                    &&& segs@[j]@.width == img@.width
                    &&& segs@[j]@.channels == img@.channels
                    &&& segs@[j]@.height == bounds@[j + 1] - bounds@[j]
                    &&& segs@[j]@.data == row_range(img@, bounds@[j] as int, bounds@[j + 1] as int)
                },
            segs@.map_values(|s: PixelBuffer| s@.data).flatten() == img@.data.subrange(
                0,
                bs[i as int] * img@.row_bytes(),
            ),
        decreases n - 1 - i,
    {
        let start_row = bounds[i];
        let end_row = bounds[i + 1];
        proof {
            assert(bs[i as int] == start_row as int && bs[i as int + 1] == end_row as int);
            assert((start_row as int) < end_row as int && end_row as int <= img@.height);
            lemma_total_bytes(img@);
            lemma_row_offset_bounds(height as int, rb as int, start_row as int, end_row as int);
            lemma_row_offset_bounds(height as int, rb as int, end_row as int, height as int);
        }
        let start = start_row * rb;
        let end = end_row * rb;
        let mut data: Vec<u8> = Vec::new();
        let mut j: usize = start;
        while j < end
            invariant
                start <= j <= end,
                end <= len,
                len == img@.data.len(),
                data@ == img@.data.subrange(start as int, j as int),
            decreases end - j,
        {
            data.push(img.data[j]);
            proof {
                assert_seqs_equal!(data@, img@.data.subrange(start as int, j as int + 1));
            }
            j = j + 1;
        }
        let seg_height = end_row - start_row;
        let ghost old_segs = segs@;
        segs.push(PixelBuffer { height: seg_height, width, channels, data });
        proof {
            assert(seg_height as int * (rb as int) == end as int - start as int);
            assert(seg_height as int * width as int * channels as int == seg_height as int * (
            width as int * channels as int)) by (nonlinear_arith);
            assert_seqs_equal!(
                segs@.map_values(|s: PixelBuffer| s@.data),
                old_segs.map_values(|s: PixelBuffer| s@.data).push(data@)
            );
            lemma_flatten_push(old_segs.map_values(|s: PixelBuffer| s@.data), data@);
            assert_seqs_equal!(
                img@.data.subrange(0, start as int)
                    + img@.data.subrange(start as int, end as int),
                img@.data.subrange(0, end as int)
            );
        }
        i = i + 1;
    }
    proof {
        assert(bs[i as int] == bs.last());
        lemma_total_bytes(img@);
        assert_seqs_equal!(
            img@.data.subrange(0, img@.height * img@.row_bytes()),
            img@.data
        );
    }
    segs
}

} // verus!
