//! Row-major, channel-interleaved pixel buffers and row comparison.

use vstd::prelude::*;

verus! {

/// Mathematical model of a pixel buffer: `height` rows of `width` pixels,
/// each pixel `channels` bytes, stored row-major and channel-interleaved.
pub ghost struct ImgView {
    pub height: int,
    pub width: int,
    pub channels: int,
    pub data: Seq<u8>,
}

impl ImgView {
    /// The buffer invariant: exactly one byte per row, column and channel.
    pub open spec fn wf(self) -> bool {
        &&& 0 <= self.height
        &&& 0 <= self.width
        &&& 0 <= self.channels
        &&& self.data.len() == self.height * self.width * self.channels
    }

    /// Number of bytes that one row occupies.
    pub open spec fn row_bytes(self) -> int {
        self.width * self.channels
    }

    /// Channel `k` of the pixel at row `r`, column `c`.
    pub open spec fn pix(self, r: int, c: int, k: int) -> u8 {
        self.data[(r * self.width + c) * self.channels + k]
    }
}

/// Absolute difference of two bytes, as a mathematical integer.
pub open spec fn abs_diff(a: u8, b: u8) -> int {
    if a >= b { a - b } else { b - a }
}

/// Rows `r1` and `r2` agree within `t` on every column and channel.
pub open spec fn rows_within(v: ImgView, r1: int, r2: int, t: int) -> bool {
    forall|c: int, k: int|
        0 <= c < v.width && 0 <= k < v.channels ==> abs_diff(v.pix(r1, c, k), v.pix(r2, c, k)) <= t
}

/// A pixel buffer owned by one pipeline invocation.  `data` is row-major and
/// channel-interleaved: channel `k` of pixel `(r, c)` sits at index
/// `(r * width + c) * channels + k`.
pub struct PixelBuffer {
    pub height: usize,
    pub width: usize,
    pub channels: usize,
    pub data: Vec<u8>,
}

impl View for PixelBuffer {
    type V = ImgView;

    open spec fn view(&self) -> ImgView {
        ImgView {
            height: self.height as int,
            width: self.width as int,
            channels: self.channels as int,
            data: self.data@,
        }
    }
}

/// The row-major index of channel `k` of pixel `(r, c)` stays inside the
/// buffer, and every intermediate product stays below the total byte count.
pub proof fn lemma_row_major_bounds(h: int, w: int, ch: int, r: int, c: int, k: int)
    requires
        0 <= r < h,
        0 <= c < w,
        0 <= k < ch,
    ensures
        0 <= r * w + c,
        r * w + c <= (r * w + c) * ch + k,
        (r * w + c) * ch + k < h * w * ch,
{
    assert(0 <= r * w + c && r * w + c <= (r * w + c) * ch + k && (r * w + c) * ch + k < h * w
        * ch) by (nonlinear_arith)
        requires
            0 <= r < h,
            0 <= c < w,
            0 <= k < ch,
    ;
}

impl PixelBuffer {
    /// Wraps a byte vector as a pixel buffer if its length matches the given
    /// shape, and refuses it otherwise.
    pub fn new(height: usize, width: usize, channels: usize, data: Vec<u8>) -> (r: Option<
        PixelBuffer,
    >)
        ensures
            match r {
                Some(b) => {
                    &&& b@.wf()
                    &&& b@.height == height
                    &&& b@.width == width
                    &&& b@.channels == channels
                    &&& b@.data == data@
                    &&& data@.len() == height * width * channels
                },
                None => data@.len() != height * width * channels,
            },
    {
        let len = data.len();
        if height == 0 || width == 0 || channels == 0 {
            proof {
                lemma_shape_product_zero(height as int, width as int, channels as int);
            }
            if len == 0 {
                return Some(PixelBuffer { height, width, channels, data });
            } else {
                return None;
            }
        }
        let hw = match height.checked_mul(width) {
            Some(x) => x,
            None => {
                proof {
                    lemma_shape_product_large(
                        height as int,
                        width as int,
                        channels as int,
                        len as int,
                    );
                }
                return None;
            },
        };
        let hwc = match hw.checked_mul(channels) {
            Some(x) => x,
            None => {
                proof {
                    lemma_shape_product_large(
                        height as int,
                        width as int,
                        channels as int,
                        len as int,
                    );
                }
                return None;
            },
        };
        if len == hwc {
            Some(PixelBuffer { height, width, channels, data })
        } else {
            None
        }
    }
}

/// A shape with a zero dimension holds no bytes at all.
proof fn lemma_shape_product_zero(h: int, w: int, ch: int)
    requires
        h == 0 || w == 0 || ch == 0,
    ensures
        h * w * ch == 0,
{
    assert(h * w * ch == 0) by (nonlinear_arith)
        requires
            h == 0 || w == 0 || ch == 0,
    ;
}

/// With every dimension positive, a shape product whose prefix already
/// overflows `usize` cannot equal the length of a real byte vector.
proof fn lemma_shape_product_large(h: int, w: int, ch: int, len: int)
    requires
        1 <= h,
        1 <= w,
        1 <= ch,
        len <= usize::MAX,
        h * w > usize::MAX || h * w * ch > usize::MAX,
    ensures
        len != h * w * ch,
{
    assert(h * w * ch >= h * w) by (nonlinear_arith)
        requires
            1 <= h && 1 <= w && 1 <= ch,
    ;
    assert(len != h * w * ch);
}

/// Why a group of files cannot be concatenated into one logical buffer.
#[derive(Clone, Copy, Debug, PartialEq, Eq, Structural)]
pub enum ShapeError {
    /// Two buffers of the group disagree on width.
    WidthMismatch,
    /// Two buffers of the group disagree on channel count.
    ChannelMismatch,
    /// The combined height does not fit the machine's address range.
    HeightOverflow,
}

impl PixelBuffer {
    /// Grows this buffer downward by the rows of `other`, as folder mode does
    /// when it concatenates the files under one directory into a single
    /// logical strip.  Succeeds exactly when the buffers agree on width and
    /// channel count and the combined height is representable; on failure the
    /// buffer is left unchanged.
    pub fn append_rows(&mut self, other: &PixelBuffer) -> (r: Result<(), ShapeError>)
        requires
            old(self)@.wf(),
            other@.wf(),
        ensures
            final(self)@.wf(),
            match r {
                Ok(()) => {
                    &&& old(self)@.width == other@.width
                    &&& old(self)@.channels == other@.channels
                    &&& old(self)@.height + other@.height <= usize::MAX
                    &&& final(self)@.height == old(self)@.height + other@.height
                    &&& final(self)@.width == old(self)@.width
                    &&& final(self)@.channels == old(self)@.channels
                    &&& final(self)@.data == old(self)@.data + other@.data
                },
                Err(ShapeError::WidthMismatch) => {
                    &&& old(self)@.width != other@.width
                    &&& *final(self) == *old(self)
                },
                Err(ShapeError::ChannelMismatch) => {
                    &&& old(self)@.width == other@.width
                    &&& old(self)@.channels != other@.channels
                    &&& *final(self) == *old(self)
                },
                Err(ShapeError::HeightOverflow) => {
                    &&& old(self)@.width == other@.width
                    &&& old(self)@.channels == other@.channels
                    &&& old(self)@.height + other@.height > usize::MAX
                    &&& *final(self) == *old(self)
                },
            },
    {
        if self.width != other.width {
            return Err(ShapeError::WidthMismatch);
        }
        if self.channels != other.channels {
            return Err(ShapeError::ChannelMismatch);
        }
        if self.height > usize::MAX - other.height {
            return Err(ShapeError::HeightOverflow);
        }
        let ghost snap = self@;
        let olen = other.data.len();
        let mut k: usize = 0;
        while k < olen
            invariant
                k <= olen,
                olen == other@.data.len(),
                self@.height == snap.height,
                self@.width == snap.width,
                self@.channels == snap.channels,
                self@.data == snap.data + other@.data.subrange(0, k as int),
            decreases olen - k,
        {
            let byte = other.data[k];
            self.data.push(byte);
            proof {
                assert(self@.data =~= snap.data + other@.data.subrange(0, k as int + 1));
            }
            k = k + 1;
        }
        proof {
            assert(self@.data =~= snap.data + other@.data);
        }
        self.height = self.height + other.height;
        proof {
            lemma_concat_shape(
                snap.height,
                other@.height,
                snap.width,
                snap.channels,
                snap.data.len() as int,
                other@.data.len() as int,
            );
        }
        Ok(())
    }
}

/// Stacking two buffers of equal width and channel count adds their heights:
/// the concatenated byte count matches the combined shape.
proof fn lemma_concat_shape(h1: int, h2: int, w: int, ch: int, l1: int, l2: int)
    requires
        l1 == h1 * w * ch,
        l2 == h2 * w * ch,
    ensures
        l1 + l2 == (h1 + h2) * w * ch,
{
    assert(h1 * w * ch + h2 * w * ch == (h1 + h2) * w * ch) by (nonlinear_arith);
}

/// True iff every column and channel of rows `r1` and `r2` differs by at most
/// `threshold`: the per-row-pair maximum channel difference is within bound.
pub fn row_pair_within(img: &PixelBuffer, r1: usize, r2: usize, threshold: u8) -> (r: bool)
    requires
        img@.wf(),
        r1 < img@.height,
        r2 < img@.height,
    ensures
        r == rows_within(img@, r1 as int, r2 as int, threshold as int),
{
    let w = img.width;
    let ch = img.channels;
    let len = img.data.len();
    let mut c: usize = 0;
    while c < w
        invariant
            img@.wf(),
            r1 < img@.height,
            r2 < img@.height,
            w == img@.width,
            ch == img@.channels,
            len == img@.data.len(),
            c <= w,
            forall|cc: int, kk: int|
                0 <= cc < c && 0 <= kk < ch ==> abs_diff(
                    img@.pix(r1 as int, cc, kk),
                    img@.pix(r2 as int, cc, kk),
                ) <= threshold,
        decreases w - c,
    {
        let mut k: usize = 0;
        while k < ch
            invariant
                img@.wf(),
                r1 < img@.height,
                r2 < img@.height,
                w == img@.width,
                ch == img@.channels,
                len == img@.data.len(),
                c < w,
                k <= ch,
                forall|cc: int, kk: int|
                    0 <= cc < c && 0 <= kk < ch ==> abs_diff(
                        img@.pix(r1 as int, cc, kk),
                        img@.pix(r2 as int, cc, kk),
                    ) <= threshold,
                forall|kk: int|
                    0 <= kk < k ==> abs_diff(
                        img@.pix(r1 as int, c as int, kk),
                        img@.pix(r2 as int, c as int, kk),
                    ) <= threshold,
            decreases ch - k,
        {
            proof {
                lemma_row_major_bounds(
                    img@.height,
                    w as int,
                    ch as int,
                    r1 as int,
                    c as int,
                    k as int,
                );
                lemma_row_major_bounds(
                    img@.height,
                    w as int,
                    ch as int,
                    r2 as int,
                    c as int,
                    k as int,
                );
            }
            let idx1 = (r1 * w + c) * ch + k;
            let idx2 = (r2 * w + c) * ch + k;
            let a = img.data[idx1];
            let b = img.data[idx2];
            let d = if a >= b {
                a - b
            } else {
                b - a
            };
            if d > threshold {
                assert(abs_diff(
                    img@.pix(r1 as int, c as int, k as int),
                    img@.pix(r2 as int, c as int, k as int),
                ) > threshold);
                return false;
            }
            k = k + 1;
        }
        c = c + 1;
    }
    true
}

} // verus!
