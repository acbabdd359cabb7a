//! End-to-end tests of the scanner, validator, extractor and concatenation.

use slasher::buffer::{PixelBuffer, ShapeError};
use slasher::params::ScanParameters;
use slasher::scan::{scan_boundaries, validate_split};
use slasher::segment::extract_segments;
use slasher::strategy::slasher;
use slasher::central::central_boundaries;
use slasher::strategy::{slice_with, CentralScan, StandardScan};
use slasher::buffer::row_pair_within;

/// A deterministic noise byte: adjacent rows always differ somewhere.
fn noise(r: usize, c: usize, k: usize) -> u8 {
    ((r * 31 + c * 7 + k * 13) % 251) as u8
}

/// A 40-row, 10-column, 3-channel buffer: rows 0-19 noise, rows 20-21 flat
/// gray, rows 22-39 noise again.
fn noisy_with_gray_band() -> PixelBuffer {
    let (h, w, ch) = (40usize, 10usize, 3usize);
    let mut data = Vec::new();
    for r in 0..h {
        for c in 0..w {
            for k in 0..ch {
                if r == 20 || r == 21 {
                    data.push(128u8);
                } else {
                    data.push(noise(r, c, k));
                }
            }
        }
    }
    PixelBuffer::new(h, w, ch, data).unwrap()
}

fn all_noise(h: usize, w: usize, ch: usize) -> PixelBuffer {
    let mut data = Vec::new();
    for r in 0..h {
        for c in 0..w {
            for k in 0..ch {
                data.push(noise(r, c, k));
            }
        }
    }
    PixelBuffer::new(h, w, ch, data).unwrap()
}

fn flat(h: usize, w: usize, ch: usize, value: u8) -> PixelBuffer {
    PixelBuffer::new(h, w, ch, vec![value; h * w * ch]).unwrap()
}

#[test]
fn gray_band_cut_at_twenty() {
    // Rows 0-19 random noise, rows 20-21 identical flat gray: expect a
    // boundary at row 20 (within the corrected aura window) and the terminal
    // boundary at 40, so exactly 2 segments.
    let img = noisy_with_gray_band();
    let p = ScanParameters { threshold: 0, target_segment_height: 15, aura_margin: 3, scan_step: 1 };
    let bounds = scan_boundaries(&img, &p);
    assert_eq!(*bounds.first().unwrap(), 0);
    assert_eq!(*bounds.last().unwrap(), 40);
    assert_eq!(bounds.len(), 3);
    let cut = bounds[1];
    assert!(14 <= cut && cut <= 21, "cut at {cut}");
    assert_eq!(cut, 20);
    let segs = extract_segments(&img, &bounds);
    assert_eq!(segs.len(), 2);
}

#[test]
fn no_uniform_rows_one_segment() {
    // No two adjacent rows ever within threshold: boundaries [0, height].
    let img = all_noise(50, 8, 3);
    let p = ScanParameters { threshold: 0, target_segment_height: 10, aura_margin: 3, scan_step: 1 };
    let bounds = scan_boundaries(&img, &p);
    assert_eq!(bounds, vec![0, 50]);
    let segs = extract_segments(&img, &bounds);
    assert_eq!(segs.len(), 1);
    assert_eq!(segs[0].data, img.data);
}

#[test]
fn folder_mode_concatenation() {
    // Three files of heights 100/150/120 with identical width and channels
    // concatenate into a single logical buffer of height 370.
    let mut first = flat(100, 6, 3, 10);
    let second = flat(150, 6, 3, 20);
    let third = flat(120, 6, 3, 30);
    assert_eq!(first.append_rows(&second), Ok(()));
    assert_eq!(first.append_rows(&third), Ok(()));
    assert_eq!(first.height, 370);
    assert_eq!(first.width, 6);
    assert_eq!(first.channels, 3);
    assert_eq!(first.data.len(), 370 * 6 * 3);
    assert_eq!(first.data[0], 10);
    assert_eq!(first.data[100 * 6 * 3], 20);
    assert_eq!(first.data[250 * 6 * 3], 30);
}

#[test]
fn concat_width_mismatch() {
    let mut a = flat(10, 6, 3, 0);
    let b = flat(10, 7, 3, 0);
    assert_eq!(a.append_rows(&b), Err(ShapeError::WidthMismatch));
    assert_eq!(a.height, 10);
    assert_eq!(a.data.len(), 10 * 6 * 3);
}

#[test]
fn concat_channel_mismatch() {
    let mut a = flat(10, 6, 3, 0);
    let b = flat(10, 6, 4, 0);
    assert_eq!(a.append_rows(&b), Err(ShapeError::ChannelMismatch));
    assert_eq!(a.height, 10);
}

#[test]
fn concat_height_overflow() {
    let mut a = PixelBuffer::new(usize::MAX, 0, 3, Vec::new()).unwrap();
    let b = PixelBuffer::new(2, 0, 3, Vec::new()).unwrap();
    assert_eq!(a.append_rows(&b), Err(ShapeError::HeightOverflow));
    assert_eq!(a.height, usize::MAX);
}

#[test]
fn scanning_is_idempotent() {
    let img = noisy_with_gray_band();
    let p = ScanParameters { threshold: 0, target_segment_height: 15, aura_margin: 3, scan_step: 1 };
    let first = scan_boundaries(&img, &p);
    let second = scan_boundaries(&img, &p);
    assert_eq!(first, second);
}

#[test]
fn segments_reconstruct_buffer() {
    let img = noisy_with_gray_band();
    let p = ScanParameters { threshold: 0, target_segment_height: 15, aura_margin: 3, scan_step: 1 };
    let segs = slasher(&img, &p);
    let mut rebuilt: Vec<u8> = Vec::new();
    let mut total_height = 0;
    for seg in &segs {
        assert_eq!(seg.width, img.width);
        assert_eq!(seg.channels, img.channels);
        total_height += seg.height;
        rebuilt.extend_from_slice(&seg.data);
    }
    assert_eq!(total_height, img.height);
    assert_eq!(rebuilt, img.data);
}

#[test]
fn validator_skips_near_bottom() {
    // split_line + aura_margin >= height: the validator must return the split
    // line unmodified, with no out-of-bounds access.
    let img = all_noise(30, 4, 3);
    let r = validate_split(&img, 25, 5, 0);
    assert_eq!(r, 25);
    let r = validate_split(&img, 29, 100, 0);
    assert_eq!(r, 29);
}

#[test]
fn validator_accepts_uniform_band() {
    // A fully flat image: the forward band agrees everywhere, so the
    // candidate is returned unchanged.
    let img = flat(30, 4, 3, 77);
    assert_eq!(validate_split(&img, 10, 5, 0), 10);
}

#[test]
fn validator_backward_correction() {
    // Rows 0-4 one flat value, rows 5-10 another, rows 11+ noise.  Candidate
    // split 10 with margin 3: the forward band (rows 11, 12 against row 10)
    // fails; the backward search from row 10 passes rows 9 down to 5 and
    // exhausts its 2 * margin - 1 offsets, so the correction is half the last
    // searched offset: (2 * 3 - 1) / 2 = 2, giving split line 8.
    let (h, w, ch) = (30usize, 4usize, 3usize);
    let mut data = Vec::new();
    for r in 0..h {
        for c in 0..w {
            for k in 0..ch {
                if r < 5 {
                    data.push(200u8);
                } else if r <= 10 {
                    data.push(50u8);
                } else {
                    data.push(noise(r, c, k).wrapping_add(100));
                }
            }
        }
    }
    let img = PixelBuffer::new(h, w, ch, data).unwrap();
    assert_eq!(validate_split(&img, 10, 3, 0), 8);
    // With a wider margin the search meets row 4, which differs, and stops
    // there: offset 6, correction 3.
    assert_eq!(validate_split(&img, 10, 4, 0), 7);
}

#[test]
fn central_strategy_boundaries() {
    // Flat image: every row pair is uniform, so each cut lands exactly at the
    // ideal row, one target height below the previous boundary.
    let img = flat(30, 4, 3, 9);
    let p = ScanParameters { threshold: 0, target_segment_height: 10, aura_margin: 3, scan_step: 1 };
    assert_eq!(central_boundaries(&img, &p), vec![0, 10, 20, 30]);
    // Gray band at rows 20-21 of a noisy image: the outward search around the
    // ideal row 15 settles on row 20; around 35 nothing is uniform, so the
    // cut is forced at the ideal row.
    let img = noisy_with_gray_band();
    let p = ScanParameters { threshold: 0, target_segment_height: 15, aura_margin: 3, scan_step: 1 };
    assert_eq!(central_boundaries(&img, &p), vec![0, 20, 35, 40]);
}

#[test]
fn both_strategies_reconstruct() {
    let img = noisy_with_gray_band();
    let p = ScanParameters { threshold: 0, target_segment_height: 15, aura_margin: 3, scan_step: 1 };
    for segs in [slice_with(&StandardScan, &img, &p), slice_with(&CentralScan, &img, &p)] {
        let mut rebuilt: Vec<u8> = Vec::new();
        for seg in &segs {
            rebuilt.extend_from_slice(&seg.data);
        }
        assert_eq!(rebuilt, img.data);
    }
}

#[test]
fn higher_threshold_never_adds_boundaries() {
    // Alternating row pairs: even rows repeat under a difference of 0, odd
    // row pairs differ by 6.  With the aura margin disabled the scan never
    // stalls, and raising the threshold can only drop boundaries.
    let (h, w, ch) = (40usize, 4usize, 1usize);
    let mut data = Vec::new();
    for r in 0..h {
        for _ in 0..(w * ch) {
            data.push(if r % 4 < 2 { 100u8 } else { 106u8 });
        }
    }
    let img = PixelBuffer::new(h, w, ch, data).unwrap();
    let mut previous_len = usize::MAX;
    for t in [0u8, 6, 255] {
        let p = ScanParameters {
            threshold: t,
            target_segment_height: 10,
            aura_margin: 0,
            scan_step: 1,
        };
        let bounds = scan_boundaries(&img, &p);
        assert!(bounds.len() <= previous_len);
        previous_len = bounds.len();
    }
}

#[test]
fn boundaries_cover_strictly_increasing() {
    let img = noisy_with_gray_band();
    for step in [1usize, 2, 5] {
        for t in [0u8, 5, 255] {
            let p = ScanParameters {
                threshold: t,
                target_segment_height: 7,
                aura_margin: 2,
                scan_step: step,
            };
            let bounds = scan_boundaries(&img, &p);
            assert_eq!(*bounds.first().unwrap(), 0);
            assert_eq!(*bounds.last().unwrap(), 40);
            for w in bounds.windows(2) {
                assert!(w[0] < w[1]);
            }
        }
    }
}

#[test]
fn new_rejects_wrong_length() {
    assert!(PixelBuffer::new(2, 3, 3, vec![0u8; 17]).is_none());
    assert!(PixelBuffer::new(2, 3, 3, vec![0u8; 18]).is_some());
    assert!(PixelBuffer::new(usize::MAX, usize::MAX, usize::MAX, vec![0u8; 9]).is_none());
}

#[test]
fn row_difference_exact() {
    // Two rows, one column, one channel: bytes 100 and 103 differ by 3.
    let img = PixelBuffer::new(2, 1, 1, vec![100, 103]).unwrap();
    assert!(!row_pair_within(&img, 0, 1, 2));
    assert!(row_pair_within(&img, 0, 1, 3));
    assert!(row_pair_within(&img, 0, 1, 255));
    assert!(row_pair_within(&img, 0, 0, 0));
}
