use rsonance::transport::{Transport, DEFAULT_SAMPLE_RATE_HZ};

#[test]
fn default_transport_is_paused_at_zero() {
    let t = Transport::default();
    assert!(!t.playing);
    assert_eq!(t.sample_cursor, 0);
    assert_eq!(t.sample_rate_hz, DEFAULT_SAMPLE_RATE_HZ);
    assert_eq!(t.sample_rate_hz, 48_000);
}

#[test]
fn toggle_flips_and_keeps_cursor() {
    let mut t = Transport::default();
    assert!(!t.is_playing());
    t.toggle();
    assert!(t.is_playing());
    t.toggle();
    assert!(!t.is_playing());
    assert_eq!(t.sample_cursor, 0);
}

#[test]
fn advance_while_paused_is_a_no_op() {
    let mut t = Transport::default();
    t.advance(4_096);
    assert_eq!(t.sample_cursor, 0);
}

#[test]
fn cursor_resumes_after_pause() {
    // Play for 24000 frames, pause over 10000 ignored frames, play 1000 more.
    let mut t = Transport::default();
    t.set_sample_rate(48_000);
    t.toggle();
    t.advance(24_000);
    assert_eq!(t.sample_cursor, 24_000);
    t.toggle();
    t.advance(10_000);
    assert_eq!(t.sample_cursor, 24_000);
    t.toggle();
    t.advance(1_000);
    assert_eq!(t.sample_cursor, 25_000);
}

#[test]
fn cursor_never_decreases_over_interleavings() {
    let mut t = Transport::default();
    let mut last: u64 = 0;
    let steps: [(bool, u64); 8] =
        [(true, 0), (false, 100), (true, 0), (false, 50), (true, 0), (false, 7), (true, 0), (false, 3)];
    for &(do_toggle, frames) in steps.iter() {
        if do_toggle {
            t.toggle();
        } else {
            t.advance(frames);
        }
        assert!(t.sample_cursor >= last);
        last = t.sample_cursor;
    }
}

#[test]
fn reset_clears_cursor_and_pauses() {
    let mut t = Transport::default();
    t.toggle();
    t.advance(500);
    t.reset();
    assert!(!t.playing);
    assert_eq!(t.sample_cursor, 0);
    assert_eq!(t.sample_rate_hz, DEFAULT_SAMPLE_RATE_HZ);
}

#[test]
fn set_sample_rate_keeps_clock_state() {
    let mut t = Transport::default();
    t.toggle();
    t.advance(123);
    t.set_sample_rate(44_100);
    assert_eq!(t.sample_rate_hz, 44_100);
    assert!(t.playing);
    assert_eq!(t.sample_cursor, 123);
}
