//! Bitmap encoding of raw pixel buffers.
//!
//! A pixel buffer holds a 256x256 image as top-down rows of RGB triples.
//! The encoder produces a complete, self-describing 24-bit bitmap file:
//! a 54-byte header followed by the pixel data, which a bitmap stores as
//! bottom-up rows with the channels of each pixel in BGR order. Rows of
//! 256 pixels at 3 bytes are a multiple of 4 bytes long, so no row
//! padding is needed.

use vstd::prelude::*;
use vstd::arithmetic::div_mod::lemma_fundamental_div_mod;
use crate::{PIXEL_BYTES, IMAGE_DIM, PipelineError};

verus! {

/// Bytes of one row of pixel data: 256 pixels, 3 bytes each.
pub const ROW_BYTES: usize = 256 * 3;

/// Length of the bitmap file header and info header together.
pub const BMP_HEADER_BYTES: usize = 54;

/// Length of a complete bitmap file: header plus pixel data.
pub const BMP_FILE_BYTES: usize = 54 + 256 * 256 * 3;

/// The 54 header bytes of a 24-bit 256x256 bitmap file: the file header
/// ('B', 'M', total file size, reserved fields, pixel-data offset)
/// followed by the info header (header size 40, width, height, one color
/// plane, 24 bits per pixel, no compression, pixel-data size, and zeroed
/// resolution and palette fields). Multi-byte fields are little-endian;
/// the positive height means rows are stored bottom-up.
pub open spec fn bmp_header() -> Seq<u8> {
    seq![
        0x42u8, 0x4du8,
        0x36u8, 0x00u8, 0x03u8, 0x00u8,
        0x00u8, 0x00u8, 0x00u8, 0x00u8,
        0x36u8, 0x00u8, 0x00u8, 0x00u8,
        0x28u8, 0x00u8, 0x00u8, 0x00u8,
        0x00u8, 0x01u8, 0x00u8, 0x00u8,
        0x00u8, 0x01u8, 0x00u8, 0x00u8,
        0x01u8, 0x00u8,
        0x18u8, 0x00u8,
        0x00u8, 0x00u8, 0x00u8, 0x00u8,
        0x00u8, 0x00u8, 0x03u8, 0x00u8,
        0x00u8, 0x00u8, 0x00u8, 0x00u8,
        0x00u8, 0x00u8, 0x00u8, 0x00u8,
        0x00u8, 0x00u8, 0x00u8, 0x00u8,
        0x00u8, 0x00u8, 0x00u8, 0x00u8,
    ]
}

/// Where byte `i` of the pixel-data section reads from in the pixel
/// buffer (and, the map being its own inverse, where byte `i` of the
/// buffer lands in the pixel-data section): the row is mirrored
/// vertically (bitmaps store rows bottom-up) and the channel within the
/// pixel is reversed (RGB becomes BGR). 768 is the length of a row and
/// 255 the last row index.
pub open spec fn mirrored_index(i: int) -> int {
    let row = i / 768;
    let col = (i % 768) / 3;
    let ch = (i % 768) % 3;
    (255 - row) * 768 + col * 3 + (2 - ch)
}

/// The pixel-data section of the bitmap encoding of pixel buffer `p`.
pub open spec fn bmp_payload(p: Seq<u8>) -> Seq<u8> {
    Seq::new(PIXEL_BYTES as nat, |i: int| p[mirrored_index(i)])
}

/// The complete bitmap file encoding pixel buffer `p`.
pub open spec fn bmp_bytes(p: Seq<u8>) -> Seq<u8> {
    bmp_header() + bmp_payload(p)
}

/// The pixel buffer that a standard bitmap reader recovers from the file
/// bytes `b`: byte `i` of the buffer is read from the mirrored position
/// within the pixel-data section that follows the header.
pub open spec fn decoded_pixels(b: Seq<u8>) -> Seq<u8> {
    Seq::new(PIXEL_BYTES as nat, |i: int| b[BMP_HEADER_BYTES + mirrored_index(i)])
}

/// How `mirrored_index` acts on an index given as row, column and channel.
proof fn lemma_mirror_decompose(row: int, col: int, ch: int)
    requires
        0 <= row < 256,
        0 <= col < 256,
        0 <= ch < 3,
    ensures
        mirrored_index(row * 768 + col * 3 + ch) == (255 - row) * 768 + col * 3 + (2 - ch),
{
    assert((row * 768 + col * 3 + ch) / 768 == row && (row * 768 + col * 3 + ch) % 768 == col * 3
        + ch) by (nonlinear_arith)
        requires
            0 <= row < 256,
            0 <= col < 256,
            0 <= ch < 3,
    ;
    assert((col * 3 + ch) / 3 == col && (col * 3 + ch) % 3 == ch) by (nonlinear_arith)
        requires
            0 <= col < 256,
            0 <= ch < 3,
    ;
}

/// The mirror map stays within the pixel-data section and is its own
/// inverse.
pub proof fn lemma_mirror_involution(i: int)
    requires
        0 <= i < PIXEL_BYTES,
    ensures
        0 <= mirrored_index(i) < PIXEL_BYTES,
        mirrored_index(mirrored_index(i)) == i,
{
    let row = i / 768;
    let rem = i % 768;
    let col = rem / 3;
    let ch = rem % 3;
    lemma_fundamental_div_mod(i, 768);
    lemma_fundamental_div_mod(rem, 3);
    lemma_mirror_decompose(row, col, ch);
    lemma_mirror_decompose(255 - row, col, 2 - ch);
}

/// Law: decoding the bitmap produced from a full pixel buffer recovers
/// the buffer exactly.
pub proof fn lemma_bmp_round_trip(p: Seq<u8>)
    requires
        p.len() == PIXEL_BYTES,
    ensures
        decoded_pixels(bmp_bytes(p)) == p,
{
    let b = bmp_bytes(p);
    assert forall|i: int| 0 <= i < PIXEL_BYTES implies decoded_pixels(b)[i] == p[i] by {
        lemma_mirror_involution(i);
        let m = mirrored_index(i);
        assert(b[BMP_HEADER_BYTES + m] == bmp_payload(p)[m]);
    };
    assert(decoded_pixels(b) =~= p);
}

/// The per-channel form of the mirror map used by the encoder's loops.
proof fn lemma_mirror_triple(row: int, col: int)
    requires
        0 <= row < 256,
        0 <= col < 256,
    ensures
        mirrored_index(row * 768 + col * 3) == (255 - row) * 768 + col * 3 + 2,
        mirrored_index(row * 768 + col * 3 + 1) == (255 - row) * 768 + col * 3 + 1,
        mirrored_index(row * 768 + col * 3 + 2) == (255 - row) * 768 + col * 3,
{
    lemma_mirror_decompose(row, col, 0);
    lemma_mirror_decompose(row, col, 1);
    lemma_mirror_decompose(row, col, 2);
}

/// Append the 54 header bytes to `out`.
#[verifier::rlimit(40)]
fn push_header(out: &mut Vec<u8>)
    ensures
        final(out)@ == old(out)@ + bmp_header(),
{
    out.push(0x42);
    out.push(0x4d);
    out.push(0x36);
    out.push(0x00);
    out.push(0x03);
    out.push(0x00);
    out.push(0x00);
    out.push(0x00);
    out.push(0x00);
    out.push(0x00);
    out.push(0x36);
    out.push(0x00);
    out.push(0x00);
    out.push(0x00);
    out.push(0x28);
    out.push(0x00);
    out.push(0x00);
    out.push(0x00);
    out.push(0x00);
    out.push(0x01);
    out.push(0x00);
    out.push(0x00);
    out.push(0x00);
    out.push(0x01);
    out.push(0x00);
    out.push(0x00);
    out.push(0x01);
    out.push(0x00);
    out.push(0x18);
    out.push(0x00);
    out.push(0x00);
    out.push(0x00);
    out.push(0x00);
    out.push(0x00);
    out.push(0x00);
    out.push(0x00);
    out.push(0x03);
    out.push(0x00);
    out.push(0x00);
    out.push(0x00);
    out.push(0x00);
    out.push(0x00);
    out.push(0x00);
    out.push(0x00);
    out.push(0x00);
    out.push(0x00);
    out.push(0x00);
    out.push(0x00);
    out.push(0x00);
    out.push(0x00);
    out.push(0x00);
    out.push(0x00);
    out.push(0x00);
    out.push(0x00);
    proof {
        assert(out@ =~= old(out)@ + bmp_header());
    }
}

/// Encode a pixel buffer as a complete bitmap file. Succeeds exactly
/// when the buffer holds a full 256x256 image; the buffer length is
/// checked, so a caller need not establish it.
pub fn encode_bmp(pixels: &Vec<u8>) -> (r: Result<Vec<u8>, PipelineError>)
    ensures
        r is Ok <==> pixels@.len() == PIXEL_BYTES,
        r matches Ok(b) ==> b@ == bmp_bytes(pixels@),
        r matches Err(e) ==> e == PipelineError::WrongPixelCount,
{
    if pixels.len() != PIXEL_BYTES {
        return Err(PipelineError::WrongPixelCount);
    }
    let mut out: Vec<u8> = Vec::with_capacity(BMP_FILE_BYTES);
    push_header(&mut out);
    proof {
        assert(out@ =~= bmp_header() + bmp_payload(pixels@).take(0));
    }
    let mut row: usize = 0;
    while row < IMAGE_DIM
        invariant
            pixels@.len() == PIXEL_BYTES,
            row <= IMAGE_DIM,
            out@ == bmp_header() + bmp_payload(pixels@).take(row as int * 768),
        decreases IMAGE_DIM - row,
    {
        let src_row = IMAGE_DIM - 1 - row;
        let mut col: usize = 0;
        while col < IMAGE_DIM
            invariant
                pixels@.len() == PIXEL_BYTES,
                row < IMAGE_DIM,
                src_row == IMAGE_DIM - 1 - row,
                col <= IMAGE_DIM,
                out@ == bmp_header() + bmp_payload(pixels@).take(row as int * 768 + col as int * 3),
            decreases IMAGE_DIM - col,
        {
            let base = src_row * ROW_BYTES + col * 3;
            proof {
                lemma_mirror_triple(row as int, col as int);
            }
            out.push(pixels[base + 2]);
            out.push(pixels[base + 1]);
            out.push(pixels[base]);
            proof {
                assert(out@ =~= bmp_header() + bmp_payload(pixels@).take(
                    row as int * 768 + col as int * 3 + 3,
                ));
            }
            col = col + 1;
        }
        row = row + 1;
    }
    proof {
        assert(bmp_payload(pixels@).take(PIXEL_BYTES as int) =~= bmp_payload(pixels@));
    }
    Ok(out)
}

} // verus!
