use rainbow::engine::{
    advance_clock, blit_origin, rotated_palette, screen_color, stripe_draw_color, AnimationState,
    BACKGROUND_COLOR, DRAW_COLOR_LABEL, DRAW_COLOR_MASK, NUM_CYCLED_COLORS, SCREEN_SIZE, SPEED,
    STRIPE_HEIGHT, WINDOW_HEIGHT,
};

const RAINBOW: [u32; 7] = [
    0xff_00_00, 0xff_7f_00, 0xff_ff_00, 0x00_ff_00, 0x00_00_ff, 0x4b_00_82, 0x94_00_d3,
];

#[test]
fn color_table_matches() {
    for (i, &c) in RAINBOW.iter().enumerate() {
        assert_eq!(screen_color(i as i32), c);
    }
}

#[test]
fn palette_at_clock_zero_is_table_head() {
    // With clock 0 the palette slots 1, 2, 3 hold the first three rainbow
    // entries, before any stripe is drawn.
    let p = rotated_palette(0, 8);
    assert_eq!(p, vec![BACKGROUND_COLOR, RAINBOW[0], RAINBOW[1], RAINBOW[2]]);
}

#[test]
fn palette_rotates_with_the_stripe() {
    // One stripe later both phases advance by one: the slots cycle and the
    // colors move one table entry onward.
    let p = rotated_palette(8, 8);
    assert_eq!(p, vec![BACKGROUND_COLOR, RAINBOW[3], RAINBOW[1], RAINBOW[2]]);
    // Three stripes later the slot cycle is back at its start but the
    // colors have moved three entries onward.
    let p = rotated_palette(24, 8);
    assert_eq!(p, vec![BACKGROUND_COLOR, RAINBOW[3], RAINBOW[4], RAINBOW[5]]);
}

#[test]
fn palette_handles_negative_clock_euclideanly() {
    // clock -1 sits in stripe -1: draw phase rem_euclid(-1, 3) = 2 and
    // screen phase rem_euclid(-1, 7) = 6, both non-negative.
    let p = rotated_palette(-1, 8);
    assert_eq!(p, vec![BACKGROUND_COLOR, RAINBOW[0], RAINBOW[1], RAINBOW[6]]);
}

#[test]
fn palette_repeats_after_a_full_period() {
    // The palette is periodic in the clock with period
    // NUM_CYCLED_COLORS * COLOR_TABLE_SIZE stripes.
    let period = 3 * 7 * 8;
    for clock in [-40, -8, 0, 5, 8, 23, 100] {
        assert_eq!(rotated_palette(clock, 8), rotated_palette(clock + period, 8));
    }
}

#[test]
fn visible_band_colors_do_not_scroll() {
    // A row in stripe band `b` is drawn with selector 2 + b % 3, which the
    // host maps to palette slot 1 + b % 3. For every band the window can
    // touch, that slot holds rainbow entry b % 7, whatever the clock: the
    // rainbow stands still while the window scrolls over it.
    for clock in [-15, -1, 0, 3, 8, 17, 24, 100, 159] {
        let palette = rotated_palette(clock, 8);
        let stripe = clock.div_euclid(8);
        for band in stripe..stripe + 3 {
            let slot = 1 + band.rem_euclid(3) as usize;
            let entry = RAINBOW[band.rem_euclid(7) as usize];
            assert_eq!(palette[slot], entry, "clock {clock}, band {band}");
        }
    }
}

#[test]
fn stripe_color_cycles_over_bands() {
    assert_eq!(stripe_draw_color(0, STRIPE_HEIGHT), 2);
    assert_eq!(stripe_draw_color(STRIPE_HEIGHT - 1, STRIPE_HEIGHT), 2);
    assert_eq!(stripe_draw_color(STRIPE_HEIGHT, STRIPE_HEIGHT), 3);
    assert_eq!(stripe_draw_color(2 * STRIPE_HEIGHT, STRIPE_HEIGHT), 4);
    assert_eq!(stripe_draw_color(3 * STRIPE_HEIGHT, STRIPE_HEIGHT), 2);
    // Negative rows floor toward the band above: row -1 is in band -1,
    // whose Euclidean remainder is 2.
    assert_eq!(stripe_draw_color(-1, STRIPE_HEIGHT), 4);
    // The draw phase repeats every NUM_CYCLED_COLORS bands.
    for y in -50..50 {
        assert_eq!(
            stripe_draw_color(y, STRIPE_HEIGHT),
            stripe_draw_color(y + NUM_CYCLED_COLORS * STRIPE_HEIGHT, STRIPE_HEIGHT)
        );
    }
}

#[test]
fn clock_wraps_at_screen_bottom() {
    // Starting at 0 with SPEED 4 on a 160-pixel screen and a 16-pixel
    // window: the clock climbs to 156, the next step reaches exactly 160
    // and wraps to -15, and the clock never exceeds the screen height.
    let mut clock = 0i32;
    let mut steps = 0;
    let mut highest = clock;
    while steps < 1000 {
        let before = clock;
        clock = advance_clock(clock, 4, 160, 16);
        steps += 1;
        if clock < before {
            // The wrap happened: the candidate value hit the screen height.
            assert_eq!(before, 156);
            assert_eq!(before + 4, 160);
            assert_eq!(clock, -15);
            break;
        }
        highest = highest.max(clock);
    }
    assert_eq!(steps, 40);
    assert_eq!(highest, 156);
    assert!(highest < 160);
}

#[test]
fn engine_state_walks_its_window() {
    // Under the engine's own constants the clock starts at 0, stays below
    // the screen height, and wraps to 1 - WINDOW_HEIGHT = -45.
    let mut s = AnimationState::new();
    assert_eq!(s.clock, 0);
    let mut wrapped = false;
    for _ in 0..2000 {
        let before = s.clock;
        s.advance();
        assert!(s.clock < SCREEN_SIZE);
        assert!(s.clock >= 1 - WINDOW_HEIGHT);
        if s.clock < before {
            assert!(before + SPEED >= SCREEN_SIZE);
            assert_eq!(s.clock, 1 - WINDOW_HEIGHT);
            wrapped = true;
        }
    }
    assert!(wrapped);
}

#[test]
fn engine_constants_match_layout() {
    // STRIPE_HEIGHT is the screen height split over the rainbow table,
    // rounded up; the window is one stripe short of the cycled colors.
    assert_eq!(STRIPE_HEIGHT, (SCREEN_SIZE + 7 - 1) / 7);
    assert_eq!(WINDOW_HEIGHT, (NUM_CYCLED_COLORS - 1) * STRIPE_HEIGHT);
    assert_eq!(DRAW_COLOR_LABEL, 2);
    assert_eq!(DRAW_COLOR_MASK, 0x10);
}

#[test]
fn blit_origin_centers_the_mask() {
    // A 6-character label mask of 144 x 24 pixels sits centered on the
    // 160 x 160 screen.
    assert_eq!(blit_origin(144, 24), (8, 68));
    assert_eq!(blit_origin(160, 160), (0, 0));
}
