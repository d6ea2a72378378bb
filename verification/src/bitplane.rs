//! Packed-pixel codecs: a 2-bit-per-pixel reader for the display surface and
//! a 1-bit-per-pixel writer/reader for the glyph mask.
//!
//! Both grids store pixels row-major. The 2bpp surface packs four pixels per
//! byte, low pixel offsets in the low bits of each byte; the 1bpp mask packs
//! eight pixels per byte, most significant bit first.

use vstd::prelude::*;

verus! {

/// The 2-bit pixel of the display surface at `(x, y)`, for a grid packed
/// four pixels per byte with row stride `stride`: pixel offset `o = y*stride
/// + x` lives in byte `o / 4`, at shift `(o % 4) * 2`, low bits first.
pub open spec fn spec_read2bpp(buf: Seq<u8>, stride: int, x: int, y: int) -> u8 {
    let off = y * stride + x;
    (buf[off / 4] >> (((off % 4) * 2) as u8)) & 0x03u8
}

/// The 1-bit pixel of a mask at `(x, y)`, for a grid packed eight pixels per
/// byte with row width `width`: pixel offset `o = y*width + x` lives in byte
/// `o / 8`, at shift `7 - o % 8`, most significant bit first.
pub open spec fn spec_read1bpp(buf: Seq<u8>, width: int, x: int, y: int) -> bool {
    let off = y * width + x;
    (buf[off / 8] >> ((7 - off % 8) as u8)) & 0x01u8 == 1u8
}

/// Reads one 2-bit pixel from a packed surface.
pub fn read2bpp(buf: &Vec<u8>, stride: usize, x: usize, y: usize) -> (p: u8)
    requires
        x < stride,
        y * stride + x < buf@.len() * 4,
        buf@.len() * 4 <= usize::MAX,
    ensures
        p == spec_read2bpp(buf@, stride as int, x as int, y as int),
        p < 4,
{
    let off: usize = y * stride + x;
    let byte: u8 = buf[off / 4];
    let shift: u8 = ((off % 4) * 2) as u8;
    let p: u8 = (byte >> shift) & 0x03;
    proof {
        assert((byte >> shift) & 0x03u8 < 4) by (bit_vector);
    }
    p
}

/// Pixel offsets within one row-major grid are distinct for distinct
/// coordinates.
pub proof fn lemma_offset_injective(width: int, x1: int, y1: int, x2: int, y2: int)
    by (nonlinear_arith)
    requires
        0 <= x1 < width,
        0 <= x2 < width,
        0 <= y1,
        0 <= y2,
        y1 * width + x1 == y2 * width + x2,
    ensures
        x1 == x2,
        y1 == y2,
{
}

/// Setting one bit of a byte leaves every other bit of it unchanged, and the
/// set bit reads back as 1.
proof fn lemma_set_bit(b: u8, s: u8, t: u8)
    by (bit_vector)
    requires
        s < 8,
        t < 8,
    ensures
        (b | (1u8 << s)) >> s & 0x01u8 == 1u8,
        s != t ==> (b | (1u8 << s)) >> t & 0x01u8 == b >> t & 0x01u8,
{
}

/// Clearing one bit of a byte leaves every other bit of it unchanged, and the
/// cleared bit reads back as 0.
proof fn lemma_clear_bit(b: u8, s: u8, t: u8)
    by (bit_vector)
    requires
        s < 8,
        t < 8,
    ensures
        (b & !(1u8 << s)) >> s & 0x01u8 == 0u8,
        s != t ==> (b & !(1u8 << s)) >> t & 0x01u8 == b >> t & 0x01u8,
{
}

/// Writes one 1-bit pixel into a packed mask: clears the bit at `(x, y)`,
/// then sets it when `bit` is true. No byte outside the pixel's own byte is
/// touched, and no pixel but `(x, y)` changes.
pub fn write1bpp(buf: &mut Vec<u8>, width: usize, x: usize, y: usize, bit: bool)
    requires
        x < width,
        y * width + x < old(buf)@.len() * 8,
        old(buf)@.len() * 8 <= usize::MAX,
    ensures
        final(buf)@.len() == old(buf)@.len(),
        spec_read1bpp(final(buf)@, width as int, x as int, y as int) == bit,
        forall|x2: int, y2: int|
            0 <= x2 < width && 0 <= y2 && y2 * width + x2 < final(buf)@.len() * 8
                && !(x2 == x && y2 == y)
                ==> #[trigger] spec_read1bpp(final(buf)@, width as int, x2, y2)
                    == spec_read1bpp(old(buf)@, width as int, x2, y2),
        forall|j: int|
            0 <= j < final(buf)@.len() && j != (y * width + x) / 8
                ==> final(buf)@[j] == old(buf)@[j],
{
    let off: usize = y * width + x;
    let byte_index: usize = off / 8;
    let shift: u8 = (7 - off % 8) as u8;
    let b0: u8 = buf[byte_index];
    let b1: u8 = if bit {
        b0 | (1u8 << shift)
    } else {
        b0 & !(1u8 << shift)
    };
    buf[byte_index] = b1;
    proof {
        lemma_set_bit(b0, shift, shift);
        lemma_clear_bit(b0, shift, shift);
        assert(spec_read1bpp(buf@, width as int, x as int, y as int) == bit);
        assert forall|x2: int, y2: int|
            0 <= x2 < width && 0 <= y2 && y2 * width + x2 < buf@.len() * 8
                && !(x2 == x && y2 == y)
                implies #[trigger] spec_read1bpp(buf@, width as int, x2, y2)
                    == spec_read1bpp(old(buf)@, width as int, x2, y2) by {
            let off2 = y2 * width + x2;
            if off2 / 8 == byte_index {
                if off2 == off {
                    lemma_offset_injective(width as int, x as int, y as int, x2, y2);
                    assert(false);
                }
                assert(off2 % 8 != off % 8) by {
                    assert(off2 / 8 * 8 + off2 % 8 == off2);
                    assert(off / 8 * 8 + off % 8 == off);
                };
                let t = (7 - off2 % 8) as u8;
                lemma_set_bit(b0, shift, t);
                lemma_clear_bit(b0, shift, t);
            }
        }
    }
}

/// Reads one 1-bit pixel from a packed mask.
pub fn read1bpp(buf: &Vec<u8>, width: usize, x: usize, y: usize) -> (b: bool)
    requires
        x < width,
        y * width + x < buf@.len() * 8,
        buf@.len() * 8 <= usize::MAX,
    ensures
        b == spec_read1bpp(buf@, width as int, x as int, y as int),
{
    let off: usize = y * width + x;
    let byte: u8 = buf[off / 8];
    let shift: u8 = (7 - off % 8) as u8;
    (byte >> shift) & 0x01 == 1
}

} // verus!
