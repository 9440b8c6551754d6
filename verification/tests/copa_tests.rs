use quinn_congestion::copa::{standing_window, AckSample, CongestionReaction, Copa, RoundUpdate};

const MS: u64 = 1_000_000;

fn sample(s: Option<AckSample>) -> (u64, u64, bool) {
    let s = s.expect("the ACK continues");
    (s.delay, s.rtt_standing, s.entered_delay_mode)
}

fn round(r: Option<RoundUpdate>) -> (bool, bool) {
    let r = r.expect("a round starts");
    (r.reset_v, r.double_v)
}

fn reaction(r: Option<CongestionReaction>) -> (bool, bool) {
    let r = r.expect("the signal is not ignored");
    (r.widen_delta, r.reset_rates)
}

#[test]
fn copa_new_starts_with_32_mtus() {
    let c = Copa::new(1200, 0);
    assert_eq!(c.window(), 38_400);
    assert_eq!(c.initial_window(), 38_400);
    assert_eq!(c.pacing_window(), 38_400);
    assert_eq!(c.pacing_rate(), 0);
    assert_eq!(c.current_mtu(), 1200);
    assert!(c.in_slow_start());
    assert!(!c.is_competitive());
    assert_eq!(c.recovery_start_time(), None);
    assert_eq!(c.round_count(), 0);
}

#[test]
fn copa_mtu_update_keeps_larger_window() {
    let mut c = Copa::new(1200, 0);
    c.on_mtu_update(1500);
    assert_eq!(c.window(), 38_400);
    assert_eq!(c.current_mtu(), 1500);
    // No standing RTT yet: the MTU is the divisor.
    assert_eq!(c.pacing_rate(), 2 * 38_400 * 1_000_000 / 1500);
}

#[test]
fn copa_mtu_update_raises_window_to_four_mtus() {
    let mut c = Copa::new(1200, 0);
    c.on_mtu_update(20_000);
    assert_eq!(c.window(), 80_000);
    assert_eq!(c.pacing_rate(), 8_000_000);
    assert_eq!(c.initial_window(), 38_400);
}

#[test]
fn copa_ack_start_measures_delay() {
    let mut c = Copa::new(1200, 0);
    let s = c.on_ack_start(MS, 0, 1000, 50);
    assert_eq!(sample(s), (0, 50, false));
    assert_eq!(c.round_count(), 1);
}

#[test]
fn copa_ack_start_stops_when_standing_below_minimum() {
    // A 40 000-byte MTU gives a 20 s standing window, longer than the
    // minimum's 10 s: the minimum restarts while the standing filter keeps
    // its older, smaller sample.
    let mut c = Copa::new(40_000, 0);
    assert!(c.on_ack_start(0, 0, 1000, 50).is_some());
    assert!(c.on_ack_start(11_000 * MS, 0, 1000, 80).is_none());
    assert_eq!(c.round_count(), 2);
}

#[test]
fn copa_ack_ends_recovery_for_later_packets() {
    let mut c = Copa::new(1000, 0);
    assert_eq!(reaction(c.on_congestion_event(5, false, 10)), (false, false));
    assert_eq!(c.recovery_start_time(), Some(10));
    c.on_ack_start(20, 9, 100, 40);
    assert_eq!(c.recovery_start_time(), Some(10));
    c.on_ack_start(30, 11, 100, 40);
    assert_eq!(c.recovery_start_time(), None);
}

#[test]
fn copa_slow_start_grows_by_acked_bytes() {
    let mut c = Copa::new(1200, 0);
    c.on_ack_start(MS, 0, 1000, 50);
    assert!(c.on_ack_slow_start(1000, false));
    assert_eq!(c.window(), 39_400);
    assert_eq!(c.pacing_rate(), 2 * 39_400 * 1_000_000 / 50);
}

#[test]
fn copa_slow_start_doubles_on_large_ack() {
    let mut c = Copa::new(1200, 0);
    c.on_ack_start(MS, 0, 50_000, 50);
    assert!(c.on_ack_slow_start(50_000, false));
    assert_eq!(c.window(), 76_800);
}

#[test]
fn copa_slow_start_ends_above_target() {
    let mut c = Copa::new(1200, 0);
    c.on_ack_start(MS, 0, 1000, 50);
    assert!(!c.on_ack_slow_start(1000, true));
    assert!(!c.in_slow_start());
    assert_eq!(c.window(), 38_400);
    // Out of slow start nothing more happens in this step.
    assert!(!c.on_ack_slow_start(1000, false));
    assert_eq!(c.window(), 38_400);
}

#[test]
fn copa_round_tracks_direction() {
    let mut c = Copa::new(1200, 0);
    c.on_ack_start(MS, 0, 1000, 50);
    // The window grew since the last round (from zero): a new direction.
    assert_eq!(round(c.on_ack_round(MS, 10)), (true, false));
    // Unchanged window: the direction turns down.
    assert_eq!(round(c.on_ack_round(MS, 10)), (true, false));
    assert_eq!(round(c.on_ack_round(MS, 10)), (false, false));
    assert_eq!(round(c.on_ack_round(MS, 10)), (false, false));
    assert_eq!(round(c.on_ack_round(MS, 10)), (false, false));
    // The fifth round in the same direction doubles the velocity.
    assert_eq!(round(c.on_ack_round(MS, 10)), (false, true));
    assert!(!c.is_competitive());
}

#[test]
fn copa_round_before_any_ack_does_nothing() {
    let mut c = Copa::new(1200, 0);
    assert!(c.on_ack_round(100 * MS, 1).is_none());
    assert!(!c.is_competitive());
}

#[test]
fn copa_turns_competitive_without_minimal_delay() {
    let mut c = Copa::new(1200, 0);
    c.on_ack_start(MS, 0, 1000, 50);
    c.on_ack_round(50 * MS, 10);
    assert!(!c.is_competitive());
    c.on_ack_round(51 * MS, 10);
    assert!(c.is_competitive());
}

#[test]
fn copa_adjust_adds_mtus_for_whole_windows() {
    let mut c = Copa::new(1000, 0);
    c.on_ack_adjust(false, 64_000);
    assert_eq!(c.window(), 34_000);
    assert_eq!(c.cwnd_adjustment_accumulated(), 0);
    assert_eq!(c.pacing_rate(), 68_000_000);
}

#[test]
fn copa_adjust_keeps_partial_credit() {
    let mut c = Copa::new(1000, 0);
    c.on_ack_adjust(false, 40_000);
    assert_eq!(c.window(), 33_000);
    assert_eq!(c.cwnd_adjustment_accumulated(), 8_000);
    c.on_ack_adjust(false, 100);
    assert_eq!(c.window(), 33_000);
    assert_eq!(c.cwnd_adjustment_accumulated(), 8_100);
}

#[test]
fn copa_adjust_takes_mtus_for_negative_credit() {
    let mut c = Copa::new(1000, 0);
    c.on_ack_adjust(true, 70_000);
    assert_eq!(c.window(), 30_000);
    assert_eq!(c.cwnd_adjustment_accumulated(), -6_000);
}

#[test]
fn copa_adjust_never_goes_below_four_mtus() {
    let mut c = Copa::new(1000, 0);
    c.on_ack_adjust(true, 32_000 * 40);
    assert_eq!(c.window(), 4_000);
    assert_eq!(c.cwnd_adjustment_accumulated(), 0);
    assert_eq!(c.pacing_rate(), 8_000_000);
}

#[test]
fn copa_congestion_ignored_for_older_packets() {
    let mut c = Copa::new(1000, 0);
    assert!(c.on_congestion_event(5, false, 100).is_some());
    assert!(c.on_congestion_event(99, true, 200).is_none());
    assert_eq!(c.window(), 32_000);
    assert_eq!(c.recovery_start_time(), Some(100));
    assert_eq!(reaction(c.on_congestion_event(100, false, 300)), (false, false));
    assert_eq!(c.recovery_start_time(), Some(300));
}

#[test]
fn copa_persistent_congestion_restarts() {
    let mut c = Copa::new(1000, 0);
    c.on_ack_start(MS, 0, 1000, 50);
    c.on_ack_slow_start(1000, true);
    c.on_ack_adjust(false, 40_000);
    assert_eq!(reaction(c.on_congestion_event(5, true, 10)), (false, true));
    assert_eq!(c.window(), 4_000);
    assert!(c.in_slow_start());
    assert_eq!(c.cwnd_adjustment_accumulated(), 0);
    assert_eq!(c.pacing_rate(), 8_000_000);
}

#[test]
fn copa_congestion_in_competitive_mode_widens_delta() {
    let mut c = Copa::new(1200, 0);
    c.on_ack_start(MS, 0, 1000, 50);
    c.on_ack_round(100 * MS, 10);
    assert!(c.is_competitive());
    assert_eq!(reaction(c.on_congestion_event(0, true, 200 * MS)), (true, true));
    assert!(!c.is_competitive());
}

#[test]
fn copa_pacing_rate_never_below_mtu() {
    let mut c = Copa::new(1000, 0);
    c.on_ack_start(MS, 0, 1000, 10_000_000_000_000);
    assert!(c.on_ack_slow_start(1000, false));
    assert_eq!(c.window(), 33_000);
    assert_eq!(c.pacing_rate(), 1000);
}

#[test]
fn copa_zero_rtt_sample_cannot_pace() {
    let mut c = Copa::new(1000, 0);
    assert!(c.ack_start_is_defined(1000));
    c.on_ack_start(MS, 0, 1000, 0);
    // The standing RTT is zero: the pacing rate would divide by it.
    assert!(!c.slow_start_is_defined(1000, false));
    assert!(c.slow_start_is_defined(1000, true));
}

#[test]
fn copa_checks_reject_overflow() {
    let c = Copa::new(0, 0);
    // A zero window cannot take credit.
    assert!(!c.adjust_is_defined(false, 5));
    // Nor can it pace with a zero MTU.
    assert!(!c.adjust_is_defined(false, 0));
    let c = Copa::new(1000, 0);
    assert!(c.adjust_is_defined(false, 64_000));
    assert!(!c.adjust_is_defined(true, 1 << 63));
    assert!(c.ack_start_is_defined(u64::MAX));
    assert!(!c.round_is_defined(u64::MAX / 4));
    assert!(c.round_is_defined(u64::MAX / 5));
    assert!(!c.mtu_update_is_defined(u64::MAX / 2));
    assert!(c.mtu_update_is_defined(1500));
    assert!(c.congestion_is_defined(0, true));
    let mut c = Copa::new(1000, 0);
    c.on_ack_start(MS, 0, 10, 40);
    // The ACKed-byte total would wrap.
    assert!(!c.ack_start_is_defined(u64::MAX));
    assert!(c.ack_start_is_defined(u64::MAX - 10));
    let z = Copa::new(0, 0);
    // Persistent congestion with a zero MTU would divide by zero.
    assert!(!z.congestion_is_defined(0, true));
    assert!(z.congestion_is_defined(0, false));
}

#[test]
fn copa_standing_window_is_half_an_mtu() {
    assert_eq!(standing_window(1500), 750);
    assert_eq!(standing_window(1201), 600);
    assert_eq!(standing_window(0), 0);
    assert_eq!(standing_window(1), 0);
}

#[test]
fn copa_standing_window_matches_double_arithmetic() {
    let limit: u64 = 1 << 53;
    let samples = [
        0u64,
        1,
        1200,
        1500,
        limit - 1,
        limit,
        limit + 1,
        limit + 2,
        limit + 3,
        (1 << 54) + 2,
        (1 << 54) + 6,
        (1 << 54) - 1,
        (1 << 60) + 12345,
        u64::MAX / 4,
        u64::MAX - 1,
        u64::MAX,
    ];
    for &mtu in samples.iter() {
        assert_eq!(standing_window(mtu), (0.5 * (mtu as f64)) as u64, "mtu {}", mtu);
    }
    let mut x: u64 = 0x9e37_79b9_7f4a_7c15;
    for _ in 0..10_000 {
        x ^= x << 13;
        x ^= x >> 7;
        x ^= x << 17;
        assert_eq!(standing_window(x), (0.5 * (x as f64)) as u64, "mtu {}", x);
    }
}

#[test]
fn copa_window_floor_and_initial_window_hold_over_a_run() {
    let mut c = Copa::new(1000, 0);
    let check = |c: &Copa| {
        assert_eq!(c.initial_window(), 32_000);
        assert!(c.window() >= 4 * c.current_mtu());
        assert!(c.window() > 0);
    };
    check(&c);
    c.on_ack_start(MS, 0, 1000, 50);
    c.on_ack_slow_start(1000, true);
    check(&c);
    c.on_ack_round(2 * MS, 10);
    c.on_ack_adjust(true, 32_000 * 40);
    check(&c);
    c.on_mtu_update(3000);
    check(&c);
    c.on_congestion_event(5 * MS, true, 6 * MS);
    check(&c);
    c.on_mtu_update(500);
    check(&c);
    c.on_ack_start(7 * MS, 6 * MS, 500, 40);
    c.on_ack_slow_start(500, false);
    check(&c);
}
