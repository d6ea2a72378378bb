//! Per-frame animation state machine: palette rotation, stripe colors, the
//! scrolling clock and its wrap rule.
//!
//! All division and remainder here follow Euclidean semantics (non-negative
//! remainder for a positive divisor), so a negative clock rotates correctly.

use vstd::arithmetic::div_mod::{
    lemma_add_mod_noop, lemma_div_is_ordered, lemma_fundamental_div_mod,
    lemma_fundamental_div_mod_converse, lemma_mod_bound, lemma_mod_multiples_vanish,
};
use vstd::prelude::*;

verus! {

/// Side length of the square host screen, in pixels.
pub const SCREEN_SIZE: i32 = 160;

/// Number of entries in the fixed rainbow color table.
pub const COLOR_TABLE_SIZE: i32 = 7;

/// Height in pixels of one stripe band: `ceil(SCREEN_SIZE / COLOR_TABLE_SIZE)`.
pub const STRIPE_HEIGHT: i32 = 23;

/// Number of palette slots cycled each frame (slots 1..=3; slot 0 is fixed).
pub const NUM_CYCLED_COLORS: i32 = 3;

/// Height of the scrolled stripe window.
pub const WINDOW_HEIGHT: i32 = (NUM_CYCLED_COLORS - 1) * STRIPE_HEIGHT;

/// Pixels the stripe window scrolls per frame.
pub const SPEED: i32 = 4;

/// The fixed color kept in palette slot 0 (background and label cut-out).
pub const BACKGROUND_COLOR: u32 = 0;

/// The fixed rainbow table, entry `i` for `0 <= i < COLOR_TABLE_SIZE`.
pub open spec fn spec_screen_color(i: int) -> u32 {
    if i == 0 {
        0xff_00_00u32
    } else if i == 1 {
        0xff_7f_00u32
    } else if i == 2 {
        0xff_ff_00u32
    } else if i == 3 {
        0x00_ff_00u32
    } else if i == 4 {
        0x00_00_ffu32
    } else if i == 5 {
        0x4b_00_82u32
    } else {
        0x94_00_d3u32
    }
}

/// Looks up the fixed rainbow table.
pub fn screen_color(i: i32) -> (c: u32)
    requires
        0 <= i < COLOR_TABLE_SIZE,
    ensures
        c == spec_screen_color(i as int),
{
    if i == 0 {
        0xff_00_00
    } else if i == 1 {
        0xff_7f_00
    } else if i == 2 {
        0xff_ff_00
    } else if i == 3 {
        0x00_ff_00
    } else if i == 4 {
        0x00_00_ff
    } else if i == 5 {
        0x4b_00_82
    } else {
        0x94_00_d3
    }
}

/// Euclidean division by a positive divisor stays within the dividend's
/// range, so it never leaves `i32`.
proof fn lemma_div_bounds(a: int, b: int)
    requires
        1 <= b,
    ensures
        a >= 0 ==> 0 <= a / b <= a,
        a < 0 ==> a <= a / b <= 0,
{
    lemma_fundamental_div_mod(a, b);
    lemma_mod_bound(a, b);
    let q = a / b;
    let r = a % b;
    assert(a == b * q + r);
    if a >= 0 {
        assert(q >= 0) by (nonlinear_arith)
            requires
                a == b * q + r,
                a >= 0,
                0 <= r < b,
                1 <= b,
        ;
        assert(q <= a) by (nonlinear_arith)
            requires
                a == b * q + r,
                q >= 0,
                0 <= r,
                1 <= b,
        ;
    } else {
        assert(q <= 0) by (nonlinear_arith)
            requires
                a == b * q + r,
                a < 0,
                0 <= r < b,
                1 <= b,
        ;
        if q == 0 {
            assert(a == r) by (nonlinear_arith)
                requires
                    a == b * q + r,
                    q == 0,
            ;
            assert(false);
        }
        assert(a - q == (b - 1) * q + r) by (nonlinear_arith)
            requires
                a == b * q + r,
        ;
        assert((b - 1) * q <= -(b - 1)) by (nonlinear_arith)
            requires
                q <= -1,
                1 <= b,
        ;
        assert(q >= a);
    }
}

/// Adding `k` whole stripes to the clock advances the stripe index by
/// exactly `k`.
proof fn lemma_stripe_shift(clock: int, stripe_height: int, k: int)
    requires
        1 <= stripe_height,
    ensures
        (clock + k * stripe_height) / stripe_height == clock / stripe_height + k,
{
    lemma_fundamental_div_mod(clock, stripe_height);
    lemma_mod_bound(clock, stripe_height);
    let q = clock / stripe_height;
    let r = clock % stripe_height;
    assert(clock + k * stripe_height == (q + k) * stripe_height + r) by (nonlinear_arith)
        requires
            clock == stripe_height * q + r,
    ;
    lemma_fundamental_div_mod_converse(clock + k * stripe_height, stripe_height, q + k, r);
}

/// The stripe the clock currently sits in, by flooring division.
pub open spec fn spec_stripe(clock: int, stripe_height: int) -> int {
    clock / stripe_height
}

/// The palette the engine computes for a given clock: slot 0 keeps the fixed
/// background; for each `i` below `NUM_CYCLED_COLORS`, slot
/// `1 + (draw_phase + i) % NUM_CYCLED_COLORS` takes rainbow entry
/// `(screen_phase + i) % COLOR_TABLE_SIZE`, where both phases are the
/// stripe index reduced by the respective table size.
pub open spec fn spec_palette(clock: int, stripe_height: int) -> Seq<u32> {
    let stripe = spec_stripe(clock, stripe_height);
    let dc = stripe % (NUM_CYCLED_COLORS as int);
    let sc = stripe % (COLOR_TABLE_SIZE as int);
    seq![BACKGROUND_COLOR, 0u32, 0u32, 0u32].update(
        1 + (dc + 0) % 3,
        spec_screen_color((sc + 0) % 7),
    ).update(1 + (dc + 1) % 3, spec_screen_color((sc + 1) % 7)).update(
        1 + (dc + 2) % 3,
        spec_screen_color((sc + 2) % 7),
    )
}

/// Computes the four palette entries for the given clock.
pub fn rotated_palette(clock: i32, stripe_height: i32) -> (p: Vec<u32>)
    requires
        1 <= stripe_height,
    ensures
        p@ == spec_palette(clock as int, stripe_height as int),
        p@.len() == 4,
        p@[0] == BACKGROUND_COLOR,
{
    proof {
        lemma_div_bounds(clock as int, stripe_height as int);
    }
    let stripe = clock.checked_div_euclid(stripe_height).unwrap();
    proof {
        lemma_mod_bound(stripe as int, NUM_CYCLED_COLORS as int);
        lemma_mod_bound(stripe as int, COLOR_TABLE_SIZE as int);
    }
    let dc = stripe.checked_rem_euclid(NUM_CYCLED_COLORS).unwrap() as usize;
    let sc = stripe.checked_rem_euclid(COLOR_TABLE_SIZE).unwrap() as usize;
    let mut p: Vec<u32> = Vec::new();
    p.push(BACKGROUND_COLOR);
    p.push(0);
    p.push(0);
    p.push(0);
    proof {
        assert(p@ =~= seq![BACKGROUND_COLOR, 0u32, 0u32, 0u32]);
    }
    p[1 + (dc + 0) % 3] = screen_color(((sc + 0) % 7) as i32);
    p[1 + (dc + 1) % 3] = screen_color(((sc + 1) % 7) as i32);
    p[1 + (dc + 2) % 3] = screen_color(((sc + 2) % 7) as i32);
    p
}

/// The stripe phase that decides which cycled palette slot each row uses.
pub open spec fn spec_draw_phase(clock: int, stripe_height: int) -> int {
    spec_stripe(clock, stripe_height) % (NUM_CYCLED_COLORS as int)
}

/// Advancing the clock by one full slot cycle, `NUM_CYCLED_COLORS` whole
/// stripes, leaves the draw phase unchanged.
pub proof fn lemma_draw_phase_period(clock: int, stripe_height: int)
    requires
        1 <= stripe_height,
    ensures
        spec_draw_phase(clock + (NUM_CYCLED_COLORS as int) * stripe_height, stripe_height)
            == spec_draw_phase(clock, stripe_height),
{
    let n = NUM_CYCLED_COLORS as int;
    lemma_stripe_shift(clock, stripe_height, n);
    let stripe = spec_stripe(clock, stripe_height);
    lemma_mod_multiples_vanish(1, stripe, n);
    assert(n * 1 + stripe == stripe + n);
}

/// Advancing the clock by one full palette period,
/// `NUM_CYCLED_COLORS * COLOR_TABLE_SIZE` whole stripes, reproduces the
/// palette exactly.
pub proof fn lemma_palette_period(clock: int, stripe_height: int)
    requires
        1 <= stripe_height,
    ensures
        spec_palette(
            clock + (NUM_CYCLED_COLORS as int) * (COLOR_TABLE_SIZE as int) * stripe_height,
            stripe_height,
        ) == spec_palette(clock, stripe_height),
{
    let n = NUM_CYCLED_COLORS as int;
    let t = COLOR_TABLE_SIZE as int;
    lemma_stripe_shift(clock, stripe_height, n * t);
    let stripe = spec_stripe(clock, stripe_height);
    lemma_mod_multiples_vanish(t, stripe, n);
    assert(n * t + stripe == stripe + n * t);
    lemma_mod_multiples_vanish(n, stripe, t);
    assert(t * n + stripe == stripe + n * t);
}

/// A remainder by 3 of a value already below 6, written without the
/// remainder operator.
proof fn lemma_small_mod3(v: int)
    requires
        0 <= v < 6,
    ensures
        v % 3 == if v < 3 {
            v
        } else {
            v - 3
        },
{
    if v < 3 {
        lemma_fundamental_div_mod_converse(v, 3, 0, v);
    } else {
        lemma_fundamental_div_mod_converse(v, 3, 1, v - 3);
    }
}

/// A remainder by 7 of a value already below 14, written without the
/// remainder operator.
proof fn lemma_small_mod7(v: int)
    requires
        0 <= v < 14,
    ensures
        v % 7 == if v < 7 {
            v
        } else {
            v - 7
        },
{
    if v < 7 {
        lemma_fundamental_div_mod_converse(v, 7, 0, v);
    } else {
        lemma_fundamental_div_mod_converse(v, 7, 1, v - 7);
    }
}

/// The rainbow a frame shows is stationary: a row drawn in stripe band
/// `band` uses palette slot `1 + band % NUM_CYCLED_COLORS` (its selector is
/// that slot plus one), and for every band the current window can touch,
/// the rotated palette holds rainbow entry `band % COLOR_TABLE_SIZE` in
/// exactly that slot — whatever the clock. Scrolling moves the window, not
/// the colors under it.
pub proof fn lemma_band_color_stationary(clock: int, stripe_height: int, band: int)
    requires
        1 <= stripe_height,
        spec_stripe(clock, stripe_height) <= band < spec_stripe(clock, stripe_height) + (
        NUM_CYCLED_COLORS as int),
    ensures
        spec_palette(clock, stripe_height)[1 + band % (NUM_CYCLED_COLORS as int)]
            == spec_screen_color(band % (COLOR_TABLE_SIZE as int)),
{
    let stripe = spec_stripe(clock, stripe_height);
    let dc = stripe % 3;
    let sc = stripe % 7;
    let j = band - stripe;
    lemma_mod_bound(stripe, 3);
    lemma_mod_bound(stripe, 7);
    // The slot the update with index j wrote is the slot of band's rows.
    lemma_add_mod_noop(stripe, j, 3);
    lemma_small_mod3(j);
    lemma_small_mod3(dc + j);
    assert(band % 3 == (dc + j) % 3);
    // Its color entry is band's own entry in the rainbow table.
    lemma_add_mod_noop(stripe, j, 7);
    lemma_small_mod7(j);
    lemma_small_mod7(sc + j);
    assert(band % 7 == (sc + j) % 7);
    // The three updates write three distinct slots, so the one for j wins.
    lemma_small_mod3(dc + 0);
    lemma_small_mod3(dc + 1);
    lemma_small_mod3(dc + 2);
    assert(spec_palette(clock, stripe_height)[1 + (dc + j) % 3] == spec_screen_color(
        (sc + j) % 7,
    ));
}

/// Every row of the stripe window `[clock, clock + WINDOW_HEIGHT)` lies in
/// a band the stationary-color law covers.
pub proof fn lemma_window_row_band(clock: int, stripe_height: int, y: int)
    requires
        1 <= stripe_height,
        clock <= y < clock + ((NUM_CYCLED_COLORS as int) - 1) * stripe_height,
    ensures
        spec_stripe(clock, stripe_height) <= spec_stripe(y, stripe_height) < spec_stripe(
            clock,
            stripe_height,
        ) + (NUM_CYCLED_COLORS as int),
{
    lemma_div_is_ordered(clock, y, stripe_height);
    lemma_div_is_ordered(y, clock - 1 + 2 * stripe_height, stripe_height);
    lemma_stripe_shift(clock - 1, stripe_height, 2);
    lemma_div_is_ordered(clock - 1, clock, stripe_height);
}

/// The draw-color selector for display row `y`: the row's stripe band,
/// reduced to one of the cycled slots, offset so that the selector names
/// palette slots 1 through 3.
pub open spec fn spec_stripe_color(y: int, stripe_height: int) -> int {
    2 + spec_stripe(y, stripe_height) % (NUM_CYCLED_COLORS as int)
}

/// Computes the draw-color selector for one display row.
pub fn stripe_draw_color(y: i32, stripe_height: i32) -> (c: u16)
    requires
        1 <= stripe_height,
    ensures
        c as int == spec_stripe_color(y as int, stripe_height as int),
        2 <= c <= 4,
{
    proof {
        lemma_div_bounds(y as int, stripe_height as int);
    }
    let band = y.checked_div_euclid(stripe_height).unwrap();
    proof {
        lemma_mod_bound(band as int, NUM_CYCLED_COLORS as int);
    }
    let m = band.checked_rem_euclid(NUM_CYCLED_COLORS).unwrap();
    (2 + m) as u16
}

/// The advance rule: the clock moves `speed` pixels per frame and, once the
/// stripe window's top would leave the screen, wraps back so that the window
/// re-enters from above.
pub open spec fn spec_advance(clock: int, speed: int, screen_h: int, window_h: int) -> int {
    if clock + speed >= screen_h {
        1 - window_h
    } else {
        clock + speed
    }
}

/// Applies the advance rule for one frame.
pub fn advance_clock(clock: i32, speed: i32, screen_h: i32, window_h: i32) -> (c: i32)
    requires
        i32::MIN <= clock + speed <= i32::MAX,
        i32::MIN <= 1 - window_h <= i32::MAX,
    ensures
        c as int == spec_advance(clock as int, speed as int, screen_h as int, window_h as int),
{
    let next = clock + speed;
    if next >= screen_h {
        1 - window_h
    } else {
        next
    }
}

/// The clock values the running engine can hold: from the wrap target
/// `1 - WINDOW_HEIGHT` up to just below the screen height.
pub open spec fn clock_in_window(c: int) -> bool {
    1 - WINDOW_HEIGHT <= c < SCREEN_SIZE
}

/// The engine's only mutable state: the stripe-scroll clock.
pub struct AnimationState {
    pub clock: i32,
}

impl AnimationState {
    pub open spec fn wf(self) -> bool {
        clock_in_window(self.clock as int)
    }

    /// The initial state: the clock starts at zero.
    pub fn new() -> (s: AnimationState)
        ensures
            s.wf(),
            s.clock == 0,
    {
        AnimationState { clock: 0 }
    }

    /// Advances the clock by one frame under the fixed engine constants.
    /// The clock never reaches the screen height: once a step would, it
    /// wraps to `1 - WINDOW_HEIGHT` instead.
    pub fn advance(&mut self)
        requires
            old(self).wf(),
        ensures
            final(self).wf(),
            final(self).clock as int == spec_advance(
                old(self).clock as int,
                SPEED as int,
                SCREEN_SIZE as int,
                WINDOW_HEIGHT as int,
            ),
    {
        self.clock = advance_clock(self.clock, SPEED, SCREEN_SIZE, WINDOW_HEIGHT);
    }
}

/// The draw-color selector under which the host rasterizes the label:
/// source color 1 maps to palette slot 1.
pub const DRAW_COLOR_LABEL: u16 = 2;

/// The draw-color selector under which the host composites the mask:
/// source color 0 is transparent, source color 1 maps to palette slot 0,
/// so the label reads as a background-colored cut-out.
pub const DRAW_COLOR_MASK: u16 = 0x10;

/// The top-left corner at which a mask of the given size sits centered on
/// the square screen.
pub fn blit_origin(mask_width: usize, mask_height: usize) -> (r: (i32, i32))
    requires
        mask_width as int <= i32::MAX as int,
        mask_height as int <= i32::MAX as int,
    ensures
        r.0 as int == SCREEN_SIZE as int / 2 - mask_width as int / 2,
        r.1 as int == SCREEN_SIZE as int / 2 - mask_height as int / 2,
{
    let half_w = (mask_width / 2) as i32;
    let half_h = (mask_height / 2) as i32;
    (SCREEN_SIZE / 2 - half_w, SCREEN_SIZE / 2 - half_h)
}

} // verus!
