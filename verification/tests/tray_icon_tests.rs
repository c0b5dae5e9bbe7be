use marconio::tray_icon::ICON_SIZE;
use marconio::tray_icon::cached_idle_icon;
use marconio::tray_icon::cached_preset_icon;
use marconio::tray_icon::glyph_row;
use marconio::tray_icon::icon_color;
use marconio::tray_icon::isqrt;
use marconio::tray_icon::render_idle_icon;
use marconio::tray_icon::render_preset_icon;

fn pixel(rgba: &[u8], x: usize, y: usize) -> (u8, u8, u8, u8) {
    let o = (y * 44 + x) * 4;
    (rgba[o], rgba[o + 1], rgba[o + 2], rgba[o + 3])
}

#[test]
fn isqrt_is_the_floor_square_root() {
    assert_eq!(isqrt(0), 0);
    assert_eq!(isqrt(1), 1);
    assert_eq!(isqrt(3), 1);
    assert_eq!(isqrt(4), 2);
    assert_eq!(isqrt(15), 3);
    assert_eq!(isqrt(16), 4);
    assert_eq!(isqrt(1_000_000), 1000);
    assert_eq!(isqrt(u64::MAX), 4_294_967_295);
}

#[test]
fn idle_icon_has_the_right_shape() {
    let (rgba, w, h) = render_idle_icon();
    assert_eq!(w, ICON_SIZE);
    assert_eq!(h, ICON_SIZE);
    assert_eq!(rgba.len(), 44 * 44 * 4);
}

#[test]
fn idle_icon_draws_two_pause_bars() {
    let (rgba, _, _) = render_idle_icon();
    // Inside the left bar and the right bar: opaque foreground.
    assert_eq!(pixel(&rgba, 16, 20), (0, 0, 0, 255));
    assert_eq!(pixel(&rgba, 26, 20), (0, 0, 0, 255));
    // Between the bars: nothing has been drawn there.
    assert_eq!(pixel(&rgba, 21, 20).3, 0);
    // The exact corner lies outside the rounded outline.
    assert_eq!(pixel(&rgba, 0, 0).3, 0);
    // The outline's straight top edge carries ink.
    assert!(pixel(&rgba, 22, 4).3 > 0);
}

#[test]
fn preset_icon_draws_its_digit() {
    let (rgba, w, h) = render_preset_icon(3);
    assert_eq!((w, h), (ICON_SIZE, ICON_SIZE));
    assert_eq!(rgba.len(), 44 * 44 * 4);
    // Digit three's top row is 0b01110: columns one to three of the
    // glyph, scaled by three from (14, 11).
    assert_eq!(pixel(&rgba, 14 + 3, 11), (0, 0, 0, 255));
    assert_eq!(pixel(&rgba, 14 + 11, 11), (0, 0, 0, 255));
    assert_eq!(pixel(&rgba, 14, 11).3, 0);
}

#[test]
fn out_of_range_slots_clamp_to_the_last_digit() {
    let (six, _, _) = render_preset_icon(6);
    let (high, _, _) = render_preset_icon(200);
    assert_eq!(six, high);
    let (one, _, _) = render_preset_icon(1);
    let (zero, _, _) = render_preset_icon(0);
    assert_eq!(one, zero);
}

#[test]
fn cached_icons_equal_rendered_icons() {
    assert_eq!(cached_idle_icon().0, render_idle_icon().0);
    assert_eq!(cached_preset_icon(2).0, render_preset_icon(2).0);
}

#[test]
fn glyph_rows_are_five_bits_wide() {
    for digit in 0..6 {
        for row in 0..7 {
            assert!(glyph_row(digit, row) < 32);
        }
    }
    assert_eq!(glyph_row(0, 0), 0b00100);
    assert_eq!(glyph_row(5, 0), 0b01110);
}

#[test]
fn the_foreground_color_is_black() {
    assert_eq!(icon_color(), (0, 0, 0));
}
