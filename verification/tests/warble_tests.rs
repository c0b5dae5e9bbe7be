use marconio::fixed::SCALE;
use marconio::warble::Warble;

#[test]
fn zero_depth_delay_ignores_the_oscillators() {
    // Depths forced to zero: whatever the oscillators emit, the delay
    // is the base delay, here exactly two samples.
    let w = Warble::with_depths(44_100, 1, 2 * SCALE, 0, 0);
    assert_eq!(w.delay_micro(0, 0), 2 * SCALE);
    assert_eq!(w.delay_micro(SCALE, -SCALE), 2 * SCALE);
    assert_eq!(w.delay_micro(-SCALE, SCALE), 2 * SCALE);
}

#[test]
fn zero_depth_line_is_a_constant_two_sample_delay() {
    // An impulse fed into a zero-depth line with a two-sample base
    // delay comes back exactly two frames later, at full amplitude
    // (the fractional part is zero, so interpolation is exact).
    let mut w = Warble::with_depths(44_100, 1, 2 * SCALE, 0, 0);
    let out0 = w.process(0, SCALE, 0, 0);
    w.advance_frame();
    let out1 = w.process(0, 0, 0, 0);
    w.advance_frame();
    let out2 = w.process(0, 0, 0, 0);
    w.advance_frame();
    let out3 = w.process(0, 0, 0, 0);
    assert_eq!(out0, 0);
    assert_eq!(out1, 0);
    assert_eq!(out2, SCALE);
    assert_eq!(out3, 0);
}

#[test]
fn fractional_delay_interpolates_linearly() {
    // A delay of 1.25 samples between two written samples: the read
    // lands a quarter of the way from the newer toward the older
    // neighbour of the fractional position.
    let mut w = Warble::with_depths(44_100, 1, SCALE + 250_000, 0, 0);
    let a = 1_000_000;
    let b = 200_000;
    let _ = w.process(0, a, 0, 0);
    w.advance_frame();
    let _ = w.process(0, b, 0, 0);
    w.advance_frame();
    // Read position: write index 2 minus 1.25 samples = 0.75, i.e.
    // three quarters of the way from sample a toward sample b.
    let out = w.process(0, 0, 0, 0);
    assert_eq!(out, (a / 4) + (3 * b / 4));
}

#[test]
fn delay_is_clamped_clear_of_the_write_cursor() {
    // A base delay far beyond the buffer: the clamp holds the delay at
    // buffer length minus three samples.
    let w = Warble::with_depths(8_000, 1, 2_000_000_000, 0, 0);
    let expected = (w.buf_len as i64 - 3) * SCALE;
    assert_eq!(w.delay_micro(0, 0), expected);
    // And one below a single sample is raised to a single sample.
    let v = Warble::with_depths(8_000, 1, 0, 0, 0);
    assert_eq!(v.delay_micro(0, 0), SCALE);
}

#[test]
fn out_of_range_channel_passes_through() {
    let mut w = Warble::new(44_100, 2);
    assert_eq!(w.process(5, 123_456, 0, 0), 123_456);
}

#[test]
fn buffer_length_covers_eight_milliseconds_plus_guard() {
    let w = Warble::new(44_100, 1);
    assert_eq!(w.buf_len, (44_100 * 8 + 999) / 1000 + 4);
    let v = Warble::new(8_000, 1);
    assert_eq!(v.buf_len, 68);
    assert_eq!(v.base_delay_micro, 8_000 * 3_900);
    assert_eq!(v.wow_depth_micro, 8_000 * 950);
    assert_eq!(v.flutter_depth_micro, 8_000 * 220);
}

#[test]
fn phase_wraps_after_sixty_seconds() {
    let mut w = Warble::with_depths(8_000, 1, SCALE, 0, 0);
    assert_eq!(w.phase_micros(), 0);
    w.advance_frame();
    w.advance_frame();
    assert_eq!(w.phase_micros(), 2_000_000 / 8_000);
    for _ in 0..(60 * 8_000) {
        w.advance_frame();
    }
    // One step past sixty seconds: the accumulator has wrapped.
    assert!(w.phase_micros() < 60_000_000);
}
