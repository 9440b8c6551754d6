use quinn_congestion::clock::elapsed_millis;
use quinn_congestion::filter::{WinFilterMax, WinFilterMin};

const MS: u64 = 1_000_000;

#[test]
fn elapsed_millis_counts_whole_milliseconds() {
    assert_eq!(elapsed_millis(5 * MS, MS), 4);
    assert_eq!(elapsed_millis(1_999_999, MS), 0);
    assert_eq!(elapsed_millis(2 * MS, MS), 1);
}

#[test]
fn elapsed_millis_saturates_when_reversed() {
    assert_eq!(elapsed_millis(1, 5 * MS), 0);
}

#[test]
fn min_filter_starts_empty() {
    let f = WinFilterMin::new(100, 0);
    assert_eq!(f.get(), u64::MAX);
}

#[test]
fn min_filter_keeps_minimum_within_window() {
    let mut f = WinFilterMin::new(100, 0);
    f.update(0, 50);
    assert_eq!(f.get(), 50);
    f.update(50 * MS, 70);
    assert_eq!(f.get(), 50);
    f.update(100 * MS, 40);
    assert_eq!(f.get(), 40);
    // A larger sample leaves the minimum where it was.
    f.update(100 * MS, 45);
    assert_eq!(f.get(), 40);
}

#[test]
fn min_filter_restarts_after_window() {
    let mut f = WinFilterMin::new(100, 0);
    f.update(0, 50);
    f.update(101 * MS, 70);
    assert_eq!(f.get(), 70);
    // The window now runs from 101 ms.
    f.update(150 * MS, 90);
    assert_eq!(f.get(), 70);
    f.update(202 * MS, 90);
    assert_eq!(f.get(), 90);
}

#[test]
fn min_filter_ignores_clock_going_back() {
    let mut f = WinFilterMin::new(100, 500 * MS);
    f.update(500 * MS, 30);
    f.update(0, 60);
    assert_eq!(f.get(), 30);
}

#[test]
fn max_filter_starts_at_zero() {
    let f = WinFilterMax::new();
    assert_eq!(f.get(), 0);
}

#[test]
fn max_filter_tracks_round_maximum() {
    let mut f = WinFilterMax::new();
    f.update(1, 30);
    assert_eq!(f.get(), 30);
    f.update(1, 20);
    assert_eq!(f.get(), 30);
    f.update(1, 35);
    assert_eq!(f.get(), 35);
    f.update(2, 10);
    assert_eq!(f.get(), 10);
}
