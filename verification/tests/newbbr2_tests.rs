use std::sync::Arc;
use quinn_congestion::newbbr2::{NewBbr2, NewBbr2Config, INITIAL_RTT_NANOS};

fn numbers(acked: &[quinn_congestion::newbbr2::Acked]) -> Vec<u64> {
    acked.iter().map(|a| a.pkt_num).collect()
}

fn pairs(lost: &[quinn_congestion::newbbr2::Lost]) -> Vec<(u64, usize)> {
    lost.iter().map(|l| (l.packet_number, l.bytes_lost)).collect()
}

#[test]
fn newbbr2_default_config_sets_up_engine() {
    let b = NewBbr2::new(Arc::new(NewBbr2Config::default()), 0, 1200);
    let s = b.engine_setup();
    assert_eq!(s.initial_congestion_window, 10);
    assert_eq!(s.max_congestion_window, 20_000);
    assert_eq!(s.max_segment_size, 1400);
    assert_eq!(s.smoothed_rtt, INITIAL_RTT_NANOS);
    assert_eq!(INITIAL_RTT_NANOS, 333_000_000);
    assert_eq!(b.next_acked_pkt_num(), 0);
}

#[test]
fn newbbr2_engine_uses_larger_mtu() {
    let b = NewBbr2::new(Arc::new(NewBbr2Config::default()), 0, 1500);
    assert_eq!(b.engine_setup().max_segment_size, 1500);
}

#[test]
fn newbbr2_initial_window_in_bytes() {
    let b = NewBbr2::new(Arc::new(NewBbr2Config::default()), 0, 1200);
    assert_eq!(b.initial_window(), 14_000);
}

#[test]
fn newbbr2_config_initial_window_chains() {
    let mut c = NewBbr2Config::default();
    c.initial_window(32).initial_window(16);
    let b = NewBbr2::new(Arc::new(c), 0, 1200);
    assert_eq!(b.engine_setup().initial_congestion_window, 16);
    assert_eq!(b.engine_setup().max_congestion_window, 20_000);
    assert_eq!(b.initial_window(), 16 * 1400);
}

#[test]
fn newbbr2_packet_lists_split_range() {
    let mut b = NewBbr2::new(Arc::new(NewBbr2Config::default()), 0, 1200);
    let lost = vec![(3, 100), (9, 200), (5, 50), (1, 7)];
    let (acked, lost_in_range) = b.generate_packet_lists(2, 6, &lost, 42);
    assert_eq!(numbers(&acked), vec![2, 4, 6]);
    assert!(acked.iter().all(|a| a.time_sent == 42));
    assert_eq!(pairs(&lost_in_range), vec![(3, 100), (5, 50)]);
    assert_eq!(b.next_acked_pkt_num(), 0);
}

#[test]
fn newbbr2_packet_lists_empty_range() {
    let mut b = NewBbr2::new(Arc::new(NewBbr2Config::default()), 0, 1200);
    let lost = vec![(3, 100)];
    let (acked, lost_in_range) = b.generate_packet_lists(5, 2, &lost, 0);
    assert!(acked.is_empty());
    assert!(lost_in_range.is_empty());
}

#[test]
fn newbbr2_packet_lists_reach_largest_number() {
    let mut b = NewBbr2::new(Arc::new(NewBbr2Config::default()), 0, 1200);
    let lost = vec![(u64::MAX - 1, 10)];
    let (acked, lost_in_range) = b.generate_packet_lists(u64::MAX - 2, u64::MAX, &lost, 1);
    assert_eq!(numbers(&acked), vec![u64::MAX - 2, u64::MAX]);
    assert_eq!(pairs(&lost_in_range), vec![(u64::MAX - 1, 10)]);
}

#[test]
fn newbbr2_congestion_events_cover_consecutive_ranges() {
    let mut b = NewBbr2::new(Arc::new(NewBbr2Config::default()), 0, 1200);
    let lost = vec![(2, 1200)];
    let e = b.on_new_bbr2_congestion(5000, 4000, 77, 4, 78, &lost, 1, 99);
    assert!(!e.rtt_updated);
    assert_eq!(e.prior_in_flight, 5000);
    assert_eq!(e.bytes_in_flight, 4000);
    assert_eq!(e.event_time, 77);
    assert_eq!(e.least_unacked, 1);
    assert_eq!(numbers(&e.acked_packets), vec![0, 1, 3, 4]);
    assert_eq!(pairs(&e.lost_packets), vec![(2, 1200)]);
    assert_eq!(b.next_acked_pkt_num(), 5);

    let lost = vec![(2, 1200), (6, 1)];
    let e = b.on_new_bbr2_congestion(4000, 3000, 80, 7, 81, &lost, 5, 100);
    assert_eq!(numbers(&e.acked_packets), vec![5, 7]);
    assert_eq!(pairs(&e.lost_packets), vec![(6, 1)]);
    assert!(e.acked_packets.iter().all(|a| a.time_sent == 100));
    assert_eq!(b.next_acked_pkt_num(), 8);
}

#[test]
fn newbbr2_app_limited_reaches_engine_only_when_limited() {
    let b = NewBbr2::new(Arc::new(NewBbr2Config::default()), 0, 1200);
    assert_eq!(b.on_app_limited(3000, true), Some(3000));
    assert_eq!(b.on_app_limited(3000, false), None);
}

#[test]
fn newbbr2_mtu_update_gives_segment_size() {
    let b = NewBbr2::new(Arc::new(NewBbr2Config::default()), 0, 1200);
    assert_eq!(b.on_mtu_update(1350), 1350);
}

#[test]
fn newbbr2_run_hands_over_each_packet_once() {
    let mut b = NewBbr2::new(Arc::new(NewBbr2Config::default()), 0, 1200);
    let maxes = [3u64, 3, 6, 10];
    let losts = [vec![(1, 10), (8, 1)], vec![(2, 1)], vec![(5, 5)], vec![(7, 7), (10, 1)]];
    let mut acked_seen = Vec::new();
    let mut lost_seen = Vec::new();
    for (m, lost) in maxes.iter().zip(losts.iter()) {
        let e = b.on_new_bbr2_congestion(0, 0, 0, *m, 0, lost, 0, 0);
        acked_seen.extend(numbers(&e.acked_packets));
        lost_seen.extend(pairs(&e.lost_packets).into_iter().map(|(p, _)| p));
        assert_eq!(b.next_acked_pkt_num(), m + 1);
        assert_eq!(b.initial_window(), 14_000);
    }
    assert_eq!(acked_seen, vec![0, 2, 3, 4, 6, 8, 9]);
    assert_eq!(lost_seen, vec![1, 5, 7, 10]);
}
