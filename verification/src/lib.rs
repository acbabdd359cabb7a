//! Slices very tall, vertically scrolling images into shorter segments,
//! choosing cut lines that avoid bisecting visual content.
//!
//! The heart of the crate is a row-difference scanner combined with an
//! aura-margin validator: the scanner walks a pixel buffer row by row and
//! remembers the most recent pair of near-identical rows, and once a segment
//! has grown past its target height the validator confirms that the candidate
//! cut line sits inside a genuinely uniform band before the cut is committed.
//! An alternate central-search strategy can be selected in its place.  The
//! final boundary list is used to slice the buffer into contiguous segments.

pub mod buffer;
pub mod params;
pub mod central;
pub mod scan;
pub mod segment;
pub mod strategy;
