//! Extraction of labeled images from packed binary container files.
//!
//! A container file is a flat, header-less sequence of fixed-layout records,
//! each a label byte followed by a 256x256 RGB pixel buffer. The library
//! parses a label table, parses container bytes into records, encodes each
//! pixel buffer as a self-contained bitmap byte stream, and composes the
//! output path for each record under its label's directory.

use vstd::prelude::*;

pub mod bmp;
pub mod container;
pub mod output;
pub mod pipeline;
pub mod labels;

verus! {

/// An error raised while extracting a container file's records or
/// preparing their images.
#[derive(Clone, Copy, Debug, PartialEq, Eq, Structural)]
pub enum PipelineError {
    /// The container ends with a label byte that is not followed by a
    /// complete pixel block.
    TruncatedRecord,
    /// A record's label byte does not address an entry of the label table.
    LabelOutOfRange(u8),
    /// A pixel buffer handed to the encoder does not hold a full image.
    WrongPixelCount,
}

/// Width and height of every image in a container, in pixels.
pub const IMAGE_DIM: usize = 256;

/// Number of bytes in one decoded pixel buffer: 256 x 256 pixels, 3 bytes each.
pub const PIXEL_BYTES: usize = 256 * 256 * 3;

/// Number of bytes of one container record: a label byte, then a pixel buffer.
pub const RECORD_BYTES: usize = 1 + 256 * 256 * 3;

} // verus!
