//! The one-time glyph prescale pass: read a rasterized label back from the
//! packed display surface, run scale3x over every source pixel, and pack the
//! enlarged monochrome result into an owned 1-bit mask.

use vstd::prelude::*;

use crate::bitplane::{read1bpp, read2bpp, spec_read1bpp, spec_read2bpp, write1bpp};
use crate::scale3x::{scale3x, spec_out_px, Neighborhood, ScaledBlock};

verus! {

/// Side length in pixels of the square display surface.
pub const SURFACE_SIZE: usize = 160;

/// Byte count of the packed 2-bit display surface: `SURFACE_SIZE^2 / 4`.
pub const SURFACE_BYTES: usize = 6400;

/// Width in pixels of one rasterized glyph.
pub const CHAR_W: usize = 8;

/// Height in pixels of one rasterized glyph.
pub const CHAR_H: usize = 8;

/// The linear scaling factor of the prescale pass.
pub const SCALE_FACTOR: usize = 3;

/// Packed mask byte length for a `width` x `height` 1-bit grid:
/// `ceil(width*height/8)`.
pub open spec fn mask_bytes_len(width: int, height: int) -> int {
    (width * height + 7) / 8
}

/// `ceil(n/8)` bytes hold at least `n` bits.
pub proof fn lemma_mask_len_covers(width: int, height: int)
    by (nonlinear_arith)
    requires
        width >= 0,
        height >= 0,
    ensures
        mask_bytes_len(width, height) * 8 >= width * height,
        mask_bytes_len(width, height) >= 0,
{
}

/// A row-major pixel offset stays below the pixel count of its grid.
pub proof fn lemma_offset_in_grid(width: int, height: int, x: int, y: int)
    by (nonlinear_arith)
    requires
        0 <= x < width,
        0 <= y < height,
    ensures
        0 <= y * width + x < width * height,
{
}

/// An owned, fixed-size packed 1-bit-per-pixel mask: one bit per scaled
/// output pixel, eight pixels per byte, most significant bit first. Produced
/// once by the prescale pass and immutable thereafter.
pub struct GlyphMask {
    pub bytes: Vec<u8>,
    pub width: usize,
    pub height: usize,
}

impl GlyphMask {
    /// The byte buffer is sized to exactly `ceil(width*height/8)`.
    pub open spec fn wf(self) -> bool {
        &&& 1 <= self.width
        &&& 1 <= self.height
        &&& self.width * self.height + 7 <= usize::MAX
        &&& self.bytes@.len() == mask_bytes_len(self.width as int, self.height as int)
    }

    /// The mask bit at `(x, y)`.
    pub open spec fn bit(self, x: int, y: int) -> bool {
        spec_read1bpp(self.bytes@, self.width as int, x, y)
    }

    /// An all-clear mask of the given dimensions.
    pub fn new(width: usize, height: usize) -> (m: GlyphMask)
        requires
            1 <= width,
            1 <= height,
            width * height + 7 <= usize::MAX,
        ensures
            m.wf(),
            m.width == width,
            m.height == height,
            forall|x: int, y: int| 0 <= x < width && 0 <= y < height ==> !m.bit(x, y),
    {
        proof {
            lemma_mask_len_covers(width as int, height as int);
        }
        let pixel_count: usize = width * height;
        let len: usize = (pixel_count + 7) / 8;
        let mut bytes: Vec<u8> = Vec::new();
        while bytes.len() < len
            invariant
                bytes@.len() <= len,
                forall|j: int| 0 <= j < bytes@.len() ==> bytes@[j] == 0u8,
            decreases len - bytes@.len(),
        {
            bytes.push(0u8);
        }
        let m = GlyphMask { bytes, width, height };
        proof {
            assert forall|x: int, y: int| 0 <= x < width && 0 <= y < height implies !m.bit(
                x,
                y,
            ) by {
                lemma_offset_in_grid(width as int, height as int, x, y);
                let off = y * width + x;
                assert(0 <= off / 8 < len);
                assert(m.bytes@[off / 8] == 0u8);
                let s = (7 - off % 8) as u8;
                assert(s < 8);
                assert(0u8 >> s & 0x01u8 != 1u8) by (bit_vector)
                    requires
                        s < 8,
                ;
            }
        }
        m
    }

    /// Reads one mask pixel back.
    pub fn pixel(&self, x: usize, y: usize) -> (b: bool)
        requires
            self.wf(),
            x < self.width,
            y < self.height,
        ensures
            b == self.bit(x as int, y as int),
    {
        proof {
            lemma_offset_in_grid(self.width as int, self.height as int, x as int, y as int);
            lemma_mask_len_covers(self.width as int, self.height as int);
        }
        read1bpp(&self.bytes, self.width, x, y)
    }
}

/// Writes one pixel of the scaled label mask: the bit at `(x, y)` becomes
/// `pixel` and no other pixel of the mask changes.
pub fn set_msg_scaled_pixel(mask: &mut GlyphMask, x: usize, y: usize, pixel: bool)
    requires
        old(mask).wf(),
        x < old(mask).width,
        y < old(mask).height,
    ensures
        final(mask).wf(),
        final(mask).width == old(mask).width,
        final(mask).height == old(mask).height,
        final(mask).bit(x as int, y as int) == pixel,
        forall|x2: int, y2: int|
            0 <= x2 < old(mask).width && 0 <= y2 < old(mask).height && !(x2 == x && y2 == y)
                ==> #[trigger] final(mask).bit(x2, y2) == old(mask).bit(x2, y2),
{
    proof {
        lemma_offset_in_grid(mask.width as int, mask.height as int, x as int, y as int);
        lemma_mask_len_covers(mask.width as int, mask.height as int);
    }
    let width = mask.width;
    write1bpp(&mut mask.bytes, width, x, y, pixel);
    proof {
        assert forall|x2: int, y2: int|
            0 <= x2 < mask.width && 0 <= y2 < mask.height && !(x2 == x && y2 == y)
                implies #[trigger] mask.bit(x2, y2) == old(mask).bit(x2, y2) by {
            lemma_offset_in_grid(mask.width as int, mask.height as int, x2, y2);
        }
    }
}

/// The 8-neighborhood of source pixel `(x, y)` on a `gw` x `gh` grid packed
/// in `fb`. A neighbor outside the grid is absent: its presence flag is
/// false and its value is left at 0, which the scaling rules never read.
pub open spec fn spec_neighborhood(fb: Seq<u8>, gw: int, gh: int, x: int, y: int) -> Neighborhood {
    Neighborhood {
        a: if 0 < x && 0 < y {
            spec_read2bpp(fb, gw, x - 1, y - 1)
        } else {
            0u8
        },
        b: if 0 < y {
            spec_read2bpp(fb, gw, x, y - 1)
        } else {
            0u8
        },
        c: if x + 1 < gw && 0 < y {
            spec_read2bpp(fb, gw, x + 1, y - 1)
        } else {
            0u8
        },
        d: if 0 < x {
            spec_read2bpp(fb, gw, x - 1, y)
        } else {
            0u8
        },
        e: spec_read2bpp(fb, gw, x, y),
        f: if x + 1 < gw {
            spec_read2bpp(fb, gw, x + 1, y)
        } else {
            0u8
        },
        g: if 0 < x && y + 1 < gh {
            spec_read2bpp(fb, gw, x - 1, y + 1)
        } else {
            0u8
        },
        h: if y + 1 < gh {
            spec_read2bpp(fb, gw, x, y + 1)
        } else {
            0u8
        },
        i: if x + 1 < gw && y + 1 < gh {
            spec_read2bpp(fb, gw, x + 1, y + 1)
        } else {
            0u8
        },
        has_top: 0 < y,
        has_bottom: y + 1 < gh,
        has_left: 0 < x,
        has_right: x + 1 < gw,
    }
}

/// The bit the prescale pass leaves at output position `(ox, oy)`: the
/// scale3x output pixel for source pixel `(ox/3, oy/3)` at block position
/// `(ox%3, oy%3)`, mapped to "differs from the background value 0".
pub open spec fn spec_mask_bit(fb: Seq<u8>, gw: int, gh: int, ox: int, oy: int) -> bool {
    spec_out_px(spec_neighborhood(fb, gw, gh, ox / 3, oy / 3), ox % 3, oy % 3) != 0
}

/// A scaled output coordinate `3*x + d` with `0 <= d < 3` decomposes back
/// into source coordinate `x` and block position `d`.
pub proof fn lemma_block_coord(x: int, d: int)
    by (nonlinear_arith)
    requires
        0 <= x,
        0 <= d < 3,
    ensures
        (3 * x + d) / 3 == x,
        (3 * x + d) % 3 == d,
{
}

/// Writes one 3x3 scale3x output block into the mask at source position
/// `(x, y)`, mapping each output pixel to "differs from the background value
/// 0". No pixel outside the block changes.
fn write_scaled_block(mask: &mut GlyphMask, x: usize, y: usize, blk: &ScaledBlock)
    requires
        old(mask).wf(),
        3 * x + 2 < old(mask).width,
        3 * y + 2 < old(mask).height,
    ensures
        final(mask).wf(),
        final(mask).width == old(mask).width,
        final(mask).height == old(mask).height,
        forall|dx: int, dy: int|
            0 <= dx < 3 && 0 <= dy < 3
                ==> #[trigger] final(mask).bit(3 * x + dx, 3 * y + dy) == (blk.px(dx, dy) != 0),
        forall|x2: int, y2: int|
            0 <= x2 < old(mask).width && 0 <= y2 < old(mask).height
                && !(3 * x <= x2 < 3 * x + 3 && 3 * y <= y2 < 3 * y + 3)
                ==> #[trigger] final(mask).bit(x2, y2) == old(mask).bit(x2, y2),
{
    let bx = 3 * x;
    let by = 3 * y;
    set_msg_scaled_pixel(mask, bx, by, blk.p1 != 0);
    set_msg_scaled_pixel(mask, bx + 1, by, blk.p2 != 0);
    set_msg_scaled_pixel(mask, bx + 2, by, blk.p3 != 0);
    set_msg_scaled_pixel(mask, bx, by + 1, blk.p4 != 0);
    set_msg_scaled_pixel(mask, bx + 1, by + 1, blk.p5 != 0);
    set_msg_scaled_pixel(mask, bx + 2, by + 1, blk.p6 != 0);
    set_msg_scaled_pixel(mask, bx, by + 2, blk.p7 != 0);
    set_msg_scaled_pixel(mask, bx + 1, by + 2, blk.p8 != 0);
    set_msg_scaled_pixel(mask, bx + 2, by + 2, blk.p9 != 0);
}

/// The glyph prescale pass. `fb` is the packed 2-bit display surface, `gw` x
/// `gh` pixels with row stride `gw`, holding a rasterized label of `glyph_w`
/// x `glyph_h` source pixels at its top-left origin. The result is the
/// `3*glyph_w` x `3*glyph_h` mask whose every bit is the scale3x output for
/// its source pixel, 1 where the output differs from the background value 0.
pub fn prescale(
    fb: &Vec<u8>,
    grid_w: usize,
    grid_h: usize,
    glyph_w: usize,
    glyph_h: usize,
) -> (mask: GlyphMask)
    requires
        1 <= glyph_w <= grid_w,
        1 <= glyph_h <= grid_h,
        grid_w * grid_h <= fb@.len() * 4,
        fb@.len() * 4 <= usize::MAX,
        9 * (glyph_w * glyph_h) + 7 <= usize::MAX,
    ensures
        mask.wf(),
        mask.width == 3 * glyph_w,
        mask.height == 3 * glyph_h,
        forall|ox: int, oy: int|
            0 <= ox < 3 * glyph_w && 0 <= oy < 3 * glyph_h
                ==> #[trigger] mask.bit(ox, oy) == spec_mask_bit(
                fb@,
                grid_w as int,
                grid_h as int,
                ox,
                oy,
            ),
{
    proof {
        assert(3 * glyph_w * (3 * glyph_h) == 9 * (glyph_w * glyph_h)) by (nonlinear_arith);
        assert(3 * glyph_w <= 9 * (glyph_w * glyph_h)) by (nonlinear_arith)
            requires
                1 <= glyph_w,
                1 <= glyph_h,
        ;
        assert(3 * glyph_h <= 9 * (glyph_w * glyph_h)) by (nonlinear_arith)
            requires
                1 <= glyph_w,
                1 <= glyph_h,
        ;
    }
    let mask_w: usize = 3 * glyph_w;
    let mask_h: usize = 3 * glyph_h;
    let mut mask = GlyphMask::new(mask_w, mask_h);
    let ghost gw = grid_w as int;
    let ghost gh = grid_h as int;
    for y in 0..glyph_h
        invariant
            mask.wf(),
            mask.width == 3 * glyph_w,
            mask.height == 3 * glyph_h,
            glyph_w <= grid_w,
            glyph_h <= grid_h,
            grid_w * grid_h <= fb@.len() * 4,
            fb@.len() * 4 <= usize::MAX,
            gw == grid_w as int,
            gh == grid_h as int,
            forall|ox: int, oy: int|
                0 <= ox < 3 * glyph_w && 0 <= oy < 3 * y
                    ==> #[trigger] mask.bit(ox, oy) == spec_mask_bit(fb@, gw, gh, ox, oy),
    {
        for x in 0..glyph_w
            invariant
                mask.wf(),
                mask.width == 3 * glyph_w,
                mask.height == 3 * glyph_h,
                y < glyph_h,
                glyph_w <= grid_w,
                glyph_h <= grid_h,
                grid_w * grid_h <= fb@.len() * 4,
                fb@.len() * 4 <= usize::MAX,
                gw == grid_w as int,
                gh == grid_h as int,
                forall|ox: int, oy: int|
                    0 <= ox < 3 * glyph_w && 0 <= oy < 3 * y
                        ==> #[trigger] mask.bit(ox, oy) == spec_mask_bit(fb@, gw, gh, ox, oy),
                forall|ox: int, oy: int|
                    0 <= ox < 3 * x && 3 * y <= oy < 3 * y + 3
                        ==> #[trigger] mask.bit(ox, oy) == spec_mask_bit(fb@, gw, gh, ox, oy),
        {
            proof {
                lemma_offset_in_grid(gw, gh, x as int, y as int);
                if x + 1 < grid_w {
                    lemma_offset_in_grid(gw, gh, x as int + 1, y as int);
                }
                if y + 1 < grid_h {
                    lemma_offset_in_grid(gw, gh, x as int, y as int + 1);
                    if x + 1 < grid_w {
                        lemma_offset_in_grid(gw, gh, x as int + 1, y as int + 1);
                    }
                    if x > 0 {
                        lemma_offset_in_grid(gw, gh, x as int - 1, y as int + 1);
                    }
                }
                if x > 0 {
                    lemma_offset_in_grid(gw, gh, x as int - 1, y as int);
                }
                if y > 0 {
                    lemma_offset_in_grid(gw, gh, x as int, y as int - 1);
                    if x + 1 < grid_w {
                        lemma_offset_in_grid(gw, gh, x as int + 1, y as int - 1);
                    }
                    if x > 0 {
                        lemma_offset_in_grid(gw, gh, x as int - 1, y as int - 1);
                    }
                }
            }
            let has_left = x > 0;
            let has_top = y > 0;
            let has_right = x + 1 < grid_w;
            let has_bottom = y + 1 < grid_h;
            let n = Neighborhood {
                a: if has_left && has_top {
                    read2bpp(fb, grid_w, x - 1, y - 1)
                } else {
                    0
                },
                b: if has_top {
                    read2bpp(fb, grid_w, x, y - 1)
                } else {
                    0
                },
                c: if has_right && has_top {
                    read2bpp(fb, grid_w, x + 1, y - 1)
                } else {
                    0
                },
                d: if has_left {
                    read2bpp(fb, grid_w, x - 1, y)
                } else {
                    0
                },
                e: read2bpp(fb, grid_w, x, y),
                f: if has_right {
                    read2bpp(fb, grid_w, x + 1, y)
                } else {
                    0
                },
                g: if has_left && has_bottom {
                    read2bpp(fb, grid_w, x - 1, y + 1)
                } else {
                    0
                },
                h: if has_bottom {
                    read2bpp(fb, grid_w, x, y + 1)
                } else {
                    0
                },
                i: if has_right && has_bottom {
                    read2bpp(fb, grid_w, x + 1, y + 1)
                } else {
                    0
                },
                has_top,
                has_bottom,
                has_left,
                has_right,
            };
            proof {
                assert(n == spec_neighborhood(fb@, gw, gh, x as int, y as int));
            }
            let blk = scale3x(&n);
            let ghost mask_before = mask;
            write_scaled_block(&mut mask, x, y, &blk);
            proof {
                assert forall|ox: int, oy: int|
                    0 <= ox < 3 * (x + 1) && 3 * y <= oy < 3 * y + 3
                        implies #[trigger] mask.bit(ox, oy) == spec_mask_bit(fb@, gw, gh, ox, oy) by {
                    if ox < 3 * x {
                        assert(mask.bit(ox, oy) == mask_before.bit(ox, oy));
                    } else {
                        let dx = ox - 3 * x;
                        let dy = oy - 3 * y;
                        lemma_block_coord(x as int, dx);
                        lemma_block_coord(y as int, dy);
                        assert(mask.bit(ox, oy) == (blk.px(dx, dy) != 0));
                    }
                }
                assert forall|ox: int, oy: int|
                    0 <= ox < 3 * glyph_w && 0 <= oy < 3 * y
                        implies #[trigger] mask.bit(ox, oy) == spec_mask_bit(fb@, gw, gh, ox, oy) by {
                    assert(mask.bit(ox, oy) == mask_before.bit(ox, oy));
                }
            }
        }
    }
    mask
}

/// A scaled output coordinate below `3*g` comes from a source coordinate
/// below `g`.
proof fn lemma_scaled_coord_bounds(o: int, g: int)
    by (nonlinear_arith)
    requires
        0 <= o < 3 * g,
    ensures
        0 <= o / 3 < g,
        0 <= o % 3 < 3,
{
}

/// Prescaling a flat-colored region reproduces that color at triple size:
/// where every pixel of the source grid holds `v`, every bit of the scaled
/// mask is "`v` differs from the background value 0".
pub proof fn lemma_prescale_flat(fb: Seq<u8>, gw: int, gh: int, v: u8, ox: int, oy: int)
    requires
        1 <= gw,
        1 <= gh,
        forall|x: int, y: int|
            0 <= x < gw && 0 <= y < gh ==> #[trigger] spec_read2bpp(fb, gw, x, y) == v,
        0 <= ox < 3 * gw,
        0 <= oy < 3 * gh,
    ensures
        spec_mask_bit(fb, gw, gh, ox, oy) == (v != 0),
{
    lemma_scaled_coord_bounds(ox, gw);
    lemma_scaled_coord_bounds(oy, gh);
    let x = ox / 3;
    let y = oy / 3;
    let n = spec_neighborhood(fb, gw, gh, x, y);
    assert(n.e == v);
    assert(crate::scale3x::flat(n));
    crate::scale3x::lemma_scale3x_flat(n);
    assert(spec_out_px(n, ox % 3, oy % 3) == v);
}

/// The verified part of the startup pass: given the packed display surface
/// with a label of `chars` glyphs rasterized at its top-left origin, builds
/// the triple-size 1-bit mask of the label. The mask is sized to exactly
/// `ceil((8*3*chars)*(8*3)/8)` bytes, and every bit is the scale3x output
/// for its source pixel.
pub fn prescale_label(fb: &Vec<u8>, chars: usize) -> (mask: GlyphMask)
    requires
        fb@.len() == SURFACE_BYTES,
        1 <= chars <= SURFACE_SIZE / CHAR_W,
    ensures
        mask.wf(),
        mask.width == SCALE_FACTOR * CHAR_W * chars,
        mask.height == SCALE_FACTOR * CHAR_H,
        mask.bytes@.len() == mask_bytes_len(
            (SCALE_FACTOR * CHAR_W * chars) as int,
            (SCALE_FACTOR * CHAR_H) as int,
        ),
        forall|ox: int, oy: int|
            0 <= ox < mask.width && 0 <= oy < mask.height
                ==> #[trigger] mask.bit(ox, oy) == spec_mask_bit(
                fb@,
                SURFACE_SIZE as int,
                SURFACE_SIZE as int,
                ox,
                oy,
            ),
{
    let glyph_w = CHAR_W * chars;
    prescale(fb, SURFACE_SIZE, SURFACE_SIZE, glyph_w, CHAR_H)
}

} // verus!
