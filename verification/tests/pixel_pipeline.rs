use rainbow::bitplane::{read1bpp, read2bpp, write1bpp};
use rainbow::prescale::{prescale, prescale_label, set_msg_scaled_pixel, GlyphMask};
use rainbow::scale3x::{scale3x, Neighborhood, ScaledBlock};

fn full_neighborhood(vals: [u8; 9]) -> Neighborhood {
    Neighborhood {
        a: vals[0],
        b: vals[1],
        c: vals[2],
        d: vals[3],
        e: vals[4],
        f: vals[5],
        g: vals[6],
        h: vals[7],
        i: vals[8],
        has_top: true,
        has_bottom: true,
        has_left: true,
        has_right: true,
    }
}

fn block_as_array(r: &ScaledBlock) -> [u8; 9] {
    [r.p1, r.p2, r.p3, r.p4, r.p5, r.p6, r.p7, r.p8, r.p9]
}

#[test]
fn read2bpp_unpacks_low_bits_first() {
    // One byte holds four pixels: values 0, 1, 2, 3 at offsets 0..4.
    let buf: Vec<u8> = vec![0b11_10_01_00, 0b00_00_00_01];
    assert_eq!(read2bpp(&buf, 4, 0, 0), 0);
    assert_eq!(read2bpp(&buf, 4, 1, 0), 1);
    assert_eq!(read2bpp(&buf, 4, 2, 0), 2);
    assert_eq!(read2bpp(&buf, 4, 3, 0), 3);
    // Second row of a 4-pixel-wide grid starts in the second byte.
    assert_eq!(read2bpp(&buf, 4, 0, 1), 1);
    assert_eq!(read2bpp(&buf, 4, 1, 1), 0);
}

#[test]
fn write1bpp_round_trip() {
    // An 8x4 1-bit grid in 4 bytes: writing one bit reads back the same,
    // at every coordinate and for both bit values.
    let mut buf: Vec<u8> = vec![0u8; 4];
    for y in 0..4 {
        for x in 0..8 {
            write1bpp(&mut buf, 8, x, y, true);
            assert!(read1bpp(&buf, 8, x, y));
            write1bpp(&mut buf, 8, x, y, false);
            assert!(!read1bpp(&buf, 8, x, y));
        }
    }
    assert_eq!(buf, vec![0u8; 4]);
}

#[test]
fn write1bpp_perturbs_no_other_bit() {
    let mut buf: Vec<u8> = vec![0u8; 4];
    write1bpp(&mut buf, 8, 3, 1, true);
    for y in 0..4 {
        for x in 0..8 {
            assert_eq!(read1bpp(&buf, 8, x, y), x == 3 && y == 1);
        }
    }
    // Repeating the identical write changes nothing.
    let snapshot = buf.clone();
    write1bpp(&mut buf, 8, 3, 1, true);
    assert_eq!(buf, snapshot);
}

#[test]
fn write1bpp_is_msb_first() {
    let mut buf: Vec<u8> = vec![0u8; 1];
    write1bpp(&mut buf, 8, 0, 0, true);
    assert_eq!(buf[0], 0b1000_0000);
    write1bpp(&mut buf, 8, 7, 0, true);
    assert_eq!(buf[0], 0b1000_0001);
}

#[test]
fn scale3x_uniform_input_stays_uniform() {
    for v in 0..4u8 {
        let r = scale3x(&full_neighborhood([v; 9]));
        assert_eq!(block_as_array(&r), [v; 9]);
    }
}

#[test]
fn scale3x_preserves_edges() {
    // d == b, d != h, b != f: the top-left output takes the neighbor value.
    let n = full_neighborhood([
        0, 1, 0, //
        1, 0, 0, //
        0, 0, 0,
    ]);
    let r = scale3x(&n);
    assert_eq!(r.p1, 1);
    // e == c here, so the top-middle pixel stays at the center value,
    // and e == g blocks the middle-left rule the same way.
    assert_eq!(r.p2, 0);
    assert_eq!(r.p3, 0);
    assert_eq!(r.p4, 0);
    assert_eq!(r.p5, 0);
}

#[test]
fn scale3x_corner_rules_are_symmetric() {
    // b == f with b != d and f != h selects f in the top-right corner.
    let up_right = full_neighborhood([
        0, 2, 0, //
        0, 0, 2, //
        0, 0, 0,
    ]);
    assert_eq!(scale3x(&up_right).p3, 2);
    // h == d with h != f and d != b selects d in the bottom-left corner.
    let down_left = full_neighborhood([
        0, 0, 0, //
        3, 0, 0, //
        0, 3, 0,
    ]);
    assert_eq!(scale3x(&down_left).p7, 3);
    // f == h with f != b and h != d selects f in the bottom-right corner.
    let down_right = full_neighborhood([
        0, 0, 0, //
        0, 0, 1, //
        0, 1, 0,
    ]);
    assert_eq!(scale3x(&down_right).p9, 1);
}

#[test]
fn scale3x_absent_neighbors_block_edges() {
    // The same diagonal as in scale3x_preserves_edges, but the upper row
    // falls outside the grid: with b absent no equality involving it holds,
    // so no edge is detected and every output keeps the center value.
    let n = Neighborhood {
        a: 0,
        b: 1,
        c: 0,
        d: 1,
        e: 0,
        f: 0,
        g: 0,
        h: 0,
        i: 0,
        has_top: false,
        has_bottom: true,
        has_left: true,
        has_right: true,
    };
    assert_eq!(block_as_array(&scale3x(&n)), [0; 9]);
}

#[test]
fn glyph_mask_sized_to_label() {
    // A 6-character label scales to (8*3*6) x (8*3) pixels, packed into
    // ceil(144*24/8) = 432 bytes.
    let mask = GlyphMask::new(144, 24);
    assert_eq!(mask.width, 144);
    assert_eq!(mask.height, 24);
    assert_eq!(mask.bytes.len(), 432);
    // A width not divisible by 8 rounds the byte count up.
    let odd = GlyphMask::new(3, 3);
    assert_eq!(odd.bytes.len(), 2);
}

#[test]
fn set_msg_scaled_pixel_round_trip() {
    let mut mask = GlyphMask::new(24, 24);
    set_msg_scaled_pixel(&mut mask, 5, 7, true);
    assert!(mask.pixel(5, 7));
    for y in 0..24 {
        for x in 0..24 {
            assert_eq!(mask.pixel(x, y), x == 5 && y == 7);
        }
    }
    set_msg_scaled_pixel(&mut mask, 5, 7, false);
    assert!(!mask.pixel(5, 7));
}

/// Packs one 2-bit pixel into a surface buffer, low offsets in low bits.
fn poke2bpp(fb: &mut [u8], stride: usize, x: usize, y: usize, v: u8) {
    let off = y * stride + x;
    let shift = (off % 4) * 2;
    fb[off / 4] &= !(0b11 << shift);
    fb[off / 4] |= (v & 0b11) << shift;
}

#[test]
fn prescale_of_blank_surface_is_blank() {
    let fb = vec![0u8; 6400];
    let mask = prescale_label(&fb, 6);
    assert_eq!(mask.width, 144);
    assert_eq!(mask.height, 24);
    assert_eq!(mask.bytes.len(), 432);
    assert!(mask.bytes.iter().all(|&b| b == 0));
}

#[test]
fn prescale_of_flat_surface_is_solid() {
    // Every surface pixel holds 1 (0b01 four times per byte), so every
    // scaled pixel differs from the background and every mask bit is set.
    let fb = vec![0b01_01_01_01u8; 6400];
    let mask = prescale(&fb, 160, 160, 8, 8);
    for y in 0..24 {
        for x in 0..24 {
            assert!(mask.pixel(x, y));
        }
    }
}

#[test]
fn prescale_lone_pixel_scales_to_plain_block() {
    // A lone interior pixel has no equal neighbor pair, so no edge rule
    // fires anywhere and the pixel scales to a plain 3x3 block.
    let mut fb = vec![0u8; 6400];
    poke2bpp(&mut fb, 160, 1, 1, 1);
    let mask = prescale(&fb, 160, 160, 8, 8);
    for y in 0..24 {
        for x in 0..24 {
            let expected = (3..6).contains(&x) && (3..6).contains(&y);
            assert_eq!(mask.pixel(x, y), expected, "at ({x}, {y})");
        }
    }
}

#[test]
fn prescale_diagonal_smooths_toward_interior_only() {
    // Two diagonal pixels in a 2x2 glyph at the screen's top-left corner.
    // Neighbors above and left of the corner are absent (outside the
    // screen); neighbors right of and below the glyph are present
    // background. The edge rules smooth the step differently at each
    // corner, and the absent neighbors block some of the smoothing.
    let mut fb = vec![0u8; 6400];
    poke2bpp(&mut fb, 160, 0, 0, 1);
    poke2bpp(&mut fb, 160, 1, 1, 1);
    let mask = prescale(&fb, 160, 160, 2, 2);
    let expected: [[u8; 6]; 6] = [
        [1, 1, 1, 0, 0, 0],
        [1, 1, 0, 1, 0, 0],
        [1, 0, 0, 1, 0, 0],
        [0, 1, 1, 1, 1, 1],
        [0, 0, 0, 1, 1, 1],
        [0, 0, 0, 1, 1, 1],
    ];
    for y in 0..6 {
        for x in 0..6 {
            assert_eq!(mask.pixel(x, y), expected[y][x] == 1, "at ({x}, {y})");
        }
    }
}
