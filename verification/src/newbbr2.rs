//! The packet-accounting driver of the BBRv2 congestion controller.
//!
//! The driver keeps its configuration and the packet-number bookkeeping,
//! and turns each controller event into the call that the BBRv2 engine
//! receives: the engine's set-up, the ACKed and lost packets of a
//! congestion event, an application-limited signal, a new segment size.

use vstd::prelude::*;
use std::collections::HashSet;
use std::sync::Arc;

verus! {

broadcast use vstd::std_specs::hash::group_hash_axioms;

/// The size of a datagram before the path MTU is known.
pub const BASE_DATAGRAM_SIZE: u64 = 1400;

/// The initial congestion window, in packets.
pub const INITIAL_WINDOW_PACKETS: usize = 10;

/// The largest congestion window, in packets.
pub const MAX_WINDOW_PACKETS: usize = 20_000;

/// The RTT assumed before any sample, in nanoseconds (333 ms).
pub const INITIAL_RTT_NANOS: u64 = 333_000_000;

/// The state of a [`NewBbr2Config`].
pub struct NewBbr2ConfigView {
    pub initial_congestion_window: usize,
    pub max_congestion_window: usize,
    pub max_segment_size: usize,
    pub smoothed_rtt: u64,
}

/// The default configuration: ten packets of initial window, 20 000 of
/// maximum window, the base datagram size, and the initial RTT.
pub open spec fn default_config() -> NewBbr2ConfigView {
    configured_with_initial_window(INITIAL_WINDOW_PACKETS as u64)
}

/// The default configuration with an initial window of `value` packets
/// (truncated to `usize`).
pub open spec fn configured_with_initial_window(value: u64) -> NewBbr2ConfigView {
    NewBbr2ConfigView {
        initial_congestion_window: value as usize,
        max_congestion_window: MAX_WINDOW_PACKETS,
        max_segment_size: BASE_DATAGRAM_SIZE as usize,
        smoothed_rtt: INITIAL_RTT_NANOS,
    }
}

/// Setting the initial window to its default packet count gives the
/// default configuration back, and the setting keeps no trace of what the
/// configuration held before.
pub proof fn law_initial_window_resets_to_defaults(value: u64)
    ensures
        configured_with_initial_window(INITIAL_WINDOW_PACKETS as u64) == default_config(),
        configured_with_initial_window(value).initial_congestion_window == value as usize,
        configured_with_initial_window(value).max_congestion_window == default_config().max_congestion_window,
        configured_with_initial_window(value).max_segment_size == default_config().max_segment_size,
        configured_with_initial_window(value).smoothed_rtt == default_config().smoothed_rtt,
{
}

/// Configuration of the [`NewBbr2`] congestion controller. The smoothed RTT
/// is in nanoseconds.
#[derive(Debug, Clone)]
pub struct NewBbr2Config {
    initial_congestion_window: usize,
    max_congestion_window: usize,
    max_segment_size: usize,
    smoothed_rtt: u64,
}

impl View for NewBbr2Config {
    type V = NewBbr2ConfigView;

    closed spec fn view(&self) -> NewBbr2ConfigView {
        NewBbr2ConfigView {
            initial_congestion_window: self.initial_congestion_window,
            max_congestion_window: self.max_congestion_window,
            max_segment_size: self.max_segment_size,
            smoothed_rtt: self.smoothed_rtt,
        }
    }
}

impl Default for NewBbr2Config {
    fn default() -> (r: Self)
        ensures
            r@ == default_config(),
    {
        NewBbr2Config {
            initial_congestion_window: INITIAL_WINDOW_PACKETS,
            max_congestion_window: MAX_WINDOW_PACKETS,
            max_segment_size: BASE_DATAGRAM_SIZE as usize,
            smoothed_rtt: INITIAL_RTT_NANOS,
        }
    }
}

impl NewBbr2Config {
    /// Sets the initial congestion window to `value` packets (truncated to
    /// `usize`), and puts the other settings back to their defaults.
    pub fn initial_window(&mut self, value: u64) -> (r: &mut Self)
        ensures
            *final(r) == *final(self),
            (*r)@ == configured_with_initial_window(value),
    {
        self.initial_congestion_window = value as usize;
        self.max_congestion_window = MAX_WINDOW_PACKETS;
        self.max_segment_size = BASE_DATAGRAM_SIZE as usize;
        self.smoothed_rtt = INITIAL_RTT_NANOS;
        self
    }
}

/// A packet that an ACK covered: its number, and the time given for its
/// sending (the engine does not read it).
#[derive(Debug, Clone, Copy)]
pub struct Acked {
    pub pkt_num: u64,
    pub time_sent: u64,
}

/// A packet declared lost, with its size.
#[derive(Debug, Clone, Copy)]
pub struct Lost {
    pub packet_number: u64,
    pub bytes_lost: usize,
}

/// The packet numbers from `begin` to `end`, both included, in order.
pub open spec fn ack_range(begin: u64, end: u64) -> Seq<u64> {
    Seq::new(
        if begin <= end { (end - begin + 1) as nat } else { 0 },
        |i: int| (begin + i) as u64,
    )
}

/// Whether `lost` reports the packet `k` lost.
pub open spec fn reported_lost(lost: Seq<(u64, usize)>, k: u64) -> bool {
    exists|j: int| 0 <= j < lost.len() && (#[trigger] lost[j]).0 == k
}

/// The entries of `lost` whose packet number lies from `begin` to `end`, in
/// their order.
pub open spec fn lost_in_range(lost: Seq<(u64, usize)>, begin: u64, end: u64) -> Seq<(u64, usize)> {
    lost.filter(|e: (u64, usize)| begin <= e.0 && e.0 <= end)
}

/// The packet numbers from `begin` to `end` that `lost` does not report, in
/// increasing order.
pub open spec fn acked_in_range(lost: Seq<(u64, usize)>, begin: u64, end: u64) -> Seq<u64> {
    ack_range(begin, end).filter(|k: u64| !reported_lost(lost, k))
}

/// The packet numbers of a list of ACKed packets.
pub open spec fn acked_numbers(acked: Seq<Acked>) -> Seq<u64> {
    acked.map_values(|a: Acked| a.pkt_num)
}

/// A list of lost packets as (packet number, size) pairs.
pub open spec fn lost_pairs(lost: Seq<Lost>) -> Seq<(u64, usize)> {
    lost.map_values(|l: Lost| (l.packet_number, l.bytes_lost))
}

/// Whether `s` is strictly increasing.
pub open spec fn strictly_increasing(s: Seq<u64>) -> bool {
    forall|i: int, j: int| 0 <= i < j < s.len() ==> s[i] < s[j]
}

proof fn lemma_filter_keeps_increasing(s: Seq<u64>, p: spec_fn(u64) -> bool)
    requires
        strictly_increasing(s),
    ensures
        strictly_increasing(s.filter(p)),
    decreases s.len(),
{
    reveal(Seq::filter);
    if s.len() > 0 {
        let rest = s.drop_last();
        lemma_filter_keeps_increasing(rest, p);
        let f = rest.filter(p);
        if p(s.last()) {
            assert forall|i: int| 0 <= i < f.len() implies f[i] < s.last() by {
                assert(f.contains(f[i]));
                rest.lemma_filter_contains_rev(p, f[i]);
            }
        }
    }
}

/// The ACKed and lost packets of a congestion event partition its range:
/// a packet number in the range is ACKed exactly when no loss report names
/// it; the ACKed numbers rise strictly and lie in the range, and so do the
/// reported losses that are kept.
pub proof fn law_packet_lists_partition_range(lost: Seq<(u64, usize)>, begin: u64, end: u64, k: u64)
    ensures
        begin <= k <= end ==> (acked_in_range(lost, begin, end).contains(k) <==> !reported_lost(lost, k)),
        acked_in_range(lost, begin, end).contains(k) ==> begin <= k <= end && !reported_lost(lost, k),
        strictly_increasing(acked_in_range(lost, begin, end)),
        forall|e: (u64, usize)| #[trigger] lost_in_range(lost, begin, end).contains(e)
            ==> lost.contains(e) && begin <= e.0 <= end,
{
    broadcast use vstd::seq_lib::group_filter_ensures;
    let range = ack_range(begin, end);
    let keep = |k: u64| !reported_lost(lost, k);
    let within = |e: (u64, usize)| begin <= e.0 && e.0 <= end;
    if begin <= k <= end {
        let i = k - begin;
        assert(range[i] == k);
        if !reported_lost(lost, k) {
            range.lemma_filter_contains(keep, i);
        }
    }
    if acked_in_range(lost, begin, end).contains(k) {
        range.lemma_filter_contains_rev(keep, k);
        let f = range.filter(keep);
        let j = choose|j: int| 0 <= j < f.len() && f[j] == k;
        range.lemma_filter_pred(keep, j);
    }
    lemma_filter_keeps_increasing(range, keep);
    assert forall|e: (u64, usize)| #[trigger] lost_in_range(lost, begin, end).contains(e)
        implies lost.contains(e) && begin <= e.0 <= end by {
        lost.lemma_filter_contains_rev(within, e);
        let f = lost.filter(within);
        let j = choose|j: int| 0 <= j < f.len() && f[j] == e;
        lost.lemma_filter_pred(within, j);
    }
}

/// Successive congestion events cover disjoint ranges of packet numbers:
/// an event that ends at `max_acked` is followed by one that starts right
/// after it, so no packet is ACKed, or declared lost, twice.
pub proof fn law_successive_events_disjoint(
    lost1: Seq<(u64, usize)>,
    begin: u64,
    max_acked: u64,
    lost2: Seq<(u64, usize)>,
    max_acked2: u64,
    k: u64,
    e1: (u64, usize),
    e2: (u64, usize),
)
    requires
        max_acked < u64::MAX,
    ensures
        !(acked_in_range(lost1, begin, max_acked).contains(k)
            && acked_in_range(lost2, (max_acked + 1) as u64, max_acked2).contains(k)),
        lost_in_range(lost1, begin, max_acked).contains(e1)
            && lost_in_range(lost2, (max_acked + 1) as u64, max_acked2).contains(e2)
            ==> e1.0 < e2.0,
{
    law_packet_lists_partition_range(lost1, begin, max_acked, k);
    law_packet_lists_partition_range(lost2, (max_acked + 1) as u64, max_acked2, k);
}

/// The initial congestion window of a driver in bytes: the configured
/// number of packets times the base datagram size. Only the configuration
/// decides it; no driver method changes the configuration.
pub open spec fn initial_window_bytes(v: NewBbr2View) -> int {
    v.config.initial_congestion_window * BASE_DATAGRAM_SIZE
}

/// The packet numbers of a list of loss reports.
pub open spec fn reported_numbers(lost: Seq<(u64, usize)>) -> Seq<u64> {
    lost.map_values(|e: (u64, usize)| e.0)
}

/// Whether no two loss reports of `lost` name the same packet.
pub open spec fn distinct_numbers(lost: Seq<(u64, usize)>) -> bool {
    forall|i: int, j: int| 0 <= i < j < lost.len() ==> lost[i].0 != lost[j].0
}

proof fn lemma_filter_keeps_distinct(s: Seq<(u64, usize)>, p: spec_fn((u64, usize)) -> bool)
    requires
        distinct_numbers(s),
    ensures
        distinct_numbers(s.filter(p)),
    decreases s.len(),
{
    reveal(Seq::filter);
    if s.len() > 0 {
        let rest = s.drop_last();
        lemma_filter_keeps_distinct(rest, p);
        let f = rest.filter(p);
        if p(s.last()) {
            assert forall|i: int| 0 <= i < f.len() implies f[i].0 != s.last().0 by {
                assert(f.contains(f[i]));
                rest.lemma_filter_contains_rev(p, f[i]);
                let k = choose|k: int| 0 <= k < rest.len() && rest[k] == f[i];
                assert(s[k] == rest[k]);
            }
        }
    }
}

/// The first packet number that a congestion event covering every packet
/// up to `max_acked` leaves uncovered.
pub open spec fn next_uncovered(max_acked: u64) -> int {
    max_acked + 1
}

/// The segment size that the engine starts with: the larger of the
/// configured segment size and the path MTU.
pub open spec fn engine_mss_for(max_segment_size: usize, current_mtu: u16) -> usize {
    if max_segment_size >= current_mtu as usize {
        max_segment_size
    } else {
        current_mtu as usize
    }
}

/// The engine's set-up for a driver in state `v`.
pub open spec fn setup_of(v: NewBbr2View) -> Bbr2Setup {
    Bbr2Setup {
        initial_congestion_window: v.config.initial_congestion_window,
        max_congestion_window: v.config.max_congestion_window,
        max_segment_size: v.engine_mss,
        smoothed_rtt: v.config.smoothed_rtt,
    }
}

/// The application-limited signal handed to the engine, if any.
pub open spec fn app_limited_signal(bytes_in_flight: usize, app_limited: bool) -> Option<usize> {
    if app_limited {
        Some(bytes_in_flight)
    } else {
        None
    }
}

/// The segment size handed to the engine on a new path MTU.
pub open spec fn mss_for_mtu(new_mtu: u16) -> usize {
    new_mtu as usize
}

/// The first packet number of the `i`-th of a run of congestion events
/// whose largest ACKed packet numbers are `maxes`: zero for the first (a
/// new driver has covered nothing), one past the previous event's largest
/// number for the others (where the previous event leaves the driver).
pub open spec fn event_begin(maxes: Seq<u64>, i: int) -> int {
    if i == 0 {
        0
    } else {
        next_uncovered(maxes[i - 1])
    }
}

/// Whether `p` lies in the range of the `i`-th event of the run `maxes`.
pub open spec fn in_event(maxes: Seq<u64>, i: int, p: u64) -> bool {
    event_begin(maxes, i) <= p <= maxes[i]
}

proof fn lemma_some_event_covers(maxes: Seq<u64>, k: int, p: u64)
    requires
        0 <= k < maxes.len(),
        p <= maxes[k],
    ensures
        exists|i: int| 0 <= i <= k && #[trigger] in_event(maxes, i, p),
    decreases k,
{
    if k == 0 {
        assert(in_event(maxes, 0, p));
    } else if p <= maxes[k - 1] {
        lemma_some_event_covers(maxes, k - 1, p);
        let i = choose|i: int| 0 <= i <= k - 1 && #[trigger] in_event(maxes, i, p);
        assert(in_event(maxes, i, p));
    } else {
        assert(in_event(maxes, k, p));
    }
}

/// Over a run of congestion events from a new driver, whose largest ACKed
/// packet numbers `maxes` never fall and stay below `u64::MAX`, every packet
/// number up to the last largest one lies in exactly one event's range. In
/// the event whose range holds it, a packet is handed to the engine as
/// ACKed exactly when that event's loss reports `losts[i]` do not name it,
/// and as lost exactly when they do; no event hands over a packet outside
/// its range. Neither list of an event repeats a packet, given loss reports
/// that do not.
pub proof fn law_run_covers_each_packet_once(maxes: Seq<u64>, losts: Seq<Seq<(u64, usize)>>, p: u64)
    requires
        maxes.len() > 0,
        losts.len() == maxes.len(),
        forall|i: int, j: int| 0 <= i <= j < maxes.len() ==> maxes[i] <= maxes[j],
        forall|i: int| 0 <= i < maxes.len() ==> maxes[i] < u64::MAX,
        p <= maxes.last(),
    ensures
        exists|i: int| 0 <= i < maxes.len() && #[trigger] in_event(maxes, i, p),
        forall|i: int, j: int| 0 <= i < j < maxes.len() ==> !(in_event(maxes, i, p) && in_event(maxes, j, p)),
        forall|i: int| 0 <= i < maxes.len() ==> (#[trigger] acked_in_range(
            losts[i],
            event_begin(maxes, i) as u64,
            maxes[i],
        ).contains(p) <==> in_event(maxes, i, p) && !reported_lost(losts[i], p)),
        forall|i: int| 0 <= i < maxes.len() ==> (#[trigger] reported_numbers(lost_in_range(
            losts[i],
            event_begin(maxes, i) as u64,
            maxes[i],
        )).contains(p) <==> in_event(maxes, i, p) && reported_lost(losts[i], p)),
        forall|i: int| 0 <= i < maxes.len() ==> strictly_increasing(#[trigger] acked_in_range(
            losts[i],
            event_begin(maxes, i) as u64,
            maxes[i],
        )),
        forall|i: int| 0 <= i < maxes.len() && distinct_numbers(losts[i]) ==> distinct_numbers(
            #[trigger] lost_in_range(losts[i], event_begin(maxes, i) as u64, maxes[i]),
        ),
{
    broadcast use vstd::seq_lib::group_filter_ensures;
    lemma_some_event_covers(maxes, maxes.len() - 1, p);
    assert forall|i: int, j: int| 0 <= i < j < maxes.len() implies !(in_event(maxes, i, p) && in_event(
        maxes,
        j,
        p,
    )) by {
        assert(maxes[i] <= maxes[j - 1]);
    }
    assert forall|i: int| 0 <= i < maxes.len() implies (#[trigger] acked_in_range(
        losts[i],
        event_begin(maxes, i) as u64,
        maxes[i],
    ).contains(p) <==> in_event(maxes, i, p) && !reported_lost(losts[i], p)) by {
        let b = event_begin(maxes, i) as u64;
        assert(b as int == event_begin(maxes, i));
        law_packet_lists_partition_range(losts[i], b, maxes[i], p);
    }
    assert forall|i: int| 0 <= i < maxes.len() implies (#[trigger] reported_numbers(lost_in_range(
        losts[i],
        event_begin(maxes, i) as u64,
        maxes[i],
    )).contains(p) <==> in_event(maxes, i, p) && reported_lost(losts[i], p)) by {
        let b = event_begin(maxes, i) as u64;
        assert(b as int == event_begin(maxes, i));
        let lost = losts[i];
        let within = |e: (u64, usize)| b <= e.0 && e.0 <= maxes[i];
        let f = lost.filter(within);
        assert(lost_in_range(lost, b, maxes[i]) == f);
        if reported_numbers(f).contains(p) {
            let t = choose|t: int| 0 <= t < f.len() && reported_numbers(f)[t] == p;
            assert(f.contains(f[t]));
            lost.lemma_filter_contains_rev(within, f[t]);
            lost.lemma_filter_pred(within, t);
            let k = choose|k: int| 0 <= k < lost.len() && lost[k] == f[t];
            assert(lost[k].0 == p);
        }
        if in_event(maxes, i, p) && reported_lost(lost, p) {
            let k = choose|k: int| 0 <= k < lost.len() && (#[trigger] lost[k]).0 == p;
            lost.lemma_filter_contains(within, k);
            let t = choose|t: int| 0 <= t < f.len() && f[t] == lost[k];
            assert(reported_numbers(f)[t] == p);
        }
    }
    assert forall|i: int| 0 <= i < maxes.len() implies strictly_increasing(#[trigger] acked_in_range(
        losts[i],
        event_begin(maxes, i) as u64,
        maxes[i],
    )) by {
        law_packet_lists_partition_range(losts[i], event_begin(maxes, i) as u64, maxes[i], p);
    }
    assert forall|i: int| 0 <= i < maxes.len() && distinct_numbers(losts[i]) implies distinct_numbers(
        #[trigger] lost_in_range(losts[i], event_begin(maxes, i) as u64, maxes[i]),
    ) by {
        let b = event_begin(maxes, i) as u64;
        lemma_filter_keeps_distinct(losts[i], |e: (u64, usize)| b <= e.0 && e.0 <= maxes[i]);
    }
}

/// The arguments that the BBRv2 engine is set up with.
pub struct Bbr2Setup {
    pub initial_congestion_window: usize,
    pub max_congestion_window: usize,
    pub max_segment_size: usize,
    pub smoothed_rtt: u64,
}

/// A congestion event as the BBRv2 engine receives it.
pub struct Bbr2CongestionEvent {
    pub rtt_updated: bool,
    pub prior_in_flight: usize,
    pub bytes_in_flight: usize,
    pub event_time: u64,
    pub acked_packets: Vec<Acked>,
    pub lost_packets: Vec<Lost>,
    pub least_unacked: u64,
}

/// The state of a [`NewBbr2`] driver.
pub struct NewBbr2View {
    pub config: NewBbr2ConfigView,
    pub engine_mss: usize,
    pub prior_in_flight: usize,
    pub bytes_in_flight: usize,
    pub has_received_ack: bool,
    pub next_acked_pkt_num: u64,
}

/// The BBRv2 controller's driver: its configuration, the segment size its
/// engine started with, and the number of the first packet that no
/// congestion event has covered yet.
#[derive(Debug, Clone)]
pub struct NewBbr2 {
    config: Arc<NewBbr2Config>,
    engine_mss: usize,
    prior_in_flight: usize,
    bytes_in_flight: usize,
    has_received_ack: bool,
    next_acked_pkt_num: u64,
}

impl View for NewBbr2 {
    type V = NewBbr2View;

    closed spec fn view(&self) -> NewBbr2View {
        NewBbr2View {
            config: self.config@,
            engine_mss: self.engine_mss,
            prior_in_flight: self.prior_in_flight,
            bytes_in_flight: self.bytes_in_flight,
            has_received_ack: self.has_received_ack,
            next_acked_pkt_num: self.next_acked_pkt_num,
        }
    }
}

impl NewBbr2 {
    /// A driver for `config` on a path of `current_mtu` bytes, started at
    /// `now`: its engine uses the larger of the configured segment size and
    /// the MTU, and no packet has been covered yet.
    pub fn new(config: Arc<NewBbr2Config>, now: u64, current_mtu: u16) -> (r: Self)
        ensures
            r@.engine_mss == engine_mss_for(config@.max_segment_size, current_mtu),
            r@.config == config@,
            r@ == (NewBbr2View {
                config: config@,
                engine_mss: if config@.max_segment_size >= current_mtu as usize {
                    config@.max_segment_size
                } else {
                    current_mtu as usize
                },
                prior_in_flight: 0,
                bytes_in_flight: 0,
                has_received_ack: false,
                next_acked_pkt_num: 0,
            }),
    {
        let mtu = current_mtu as usize;
        let engine_mss = if config.max_segment_size >= mtu { config.max_segment_size } else { mtu };
        NewBbr2 {
            config,
            engine_mss,
            prior_in_flight: 0,
            bytes_in_flight: 0,
            has_received_ack: false,
            next_acked_pkt_num: 0,
        }
    }

    /// The arguments that the engine is set up with: the configured windows
    /// and smoothed RTT, and the segment size chosen at construction.
    pub fn engine_setup(&self) -> (r: Bbr2Setup)
        ensures
            r == setup_of(self@),
            r == (Bbr2Setup {
                initial_congestion_window: self@.config.initial_congestion_window,
                max_congestion_window: self@.config.max_congestion_window,
                max_segment_size: self@.engine_mss,
                smoothed_rtt: self@.config.smoothed_rtt,
            }),
    {
        Bbr2Setup {
            initial_congestion_window: self.config.initial_congestion_window,
            max_congestion_window: self.config.max_congestion_window,
            max_segment_size: self.engine_mss,
            smoothed_rtt: self.config.smoothed_rtt,
        }
    }

    /// Appends packet `pn` to `acked` unless it is in `lost_set`.
    fn visit_packet(
        acked: &mut Vec<Acked>,
        lost_set: &HashSet<u64>,
        pn: u64,
        now: u64,
        Ghost(lost): Ghost<Seq<(u64, usize)>>,
        ack_begin_num: u64,
        ack_end_num: u64,
    )
        requires
            ack_begin_num <= pn <= ack_end_num,
            acked_numbers(old(acked)@) == ack_range(ack_begin_num, ack_end_num).take(
                pn - ack_begin_num,
            ).filter(|k: u64| !reported_lost(lost, k)),
            forall|t: int| 0 <= t < old(acked)@.len() ==> (#[trigger] old(acked)@[t]).time_sent == now,
            forall|k: u64| ack_begin_num <= k <= ack_end_num ==>
                (#[trigger] lost_set@.contains(k) <==> reported_lost(lost, k)),
        ensures
            acked_numbers(final(acked)@) == ack_range(ack_begin_num, ack_end_num).take(
                pn - ack_begin_num + 1,
            ).filter(|k: u64| !reported_lost(lost, k)),
            forall|t: int| 0 <= t < final(acked)@.len() ==> (#[trigger] final(acked)@[t]).time_sent == now,
    {
        let ghost range = ack_range(ack_begin_num, ack_end_num);
        let ghost keep = |k: u64| !reported_lost(lost, k);
        proof {
            reveal_with_fuel(Seq::<_>::filter, 1);
            let i = pn - ack_begin_num;
            assert(range.take(i + 1).drop_last() =~= range.take(i));
            assert(range.take(i + 1).last() == pn);
        }
        if !lost_set.contains(&pn) {
            acked.push(Acked { pkt_num: pn, time_sent: now });
        }
        assert(acked_numbers(acked@) =~= range.take(pn - ack_begin_num + 1).filter(keep));
    }

    /// Splits the packets numbered `ack_begin_num` to `ack_end_num` into lost
    /// ones (the entries of `new_bbr2_lost` in that range, in their order)
    /// and ACKed ones (every other number of the range, in increasing order,
    /// stamped with `now`).
    pub fn generate_packet_lists(
        &mut self,
        ack_begin_num: u64,
        ack_end_num: u64,
        new_bbr2_lost: &Vec<(u64, usize)>,
        now: u64,
    ) -> (r: (Vec<Acked>, Vec<Lost>))
        ensures
            final(self)@ == old(self)@,
            final(self)@.config == old(self)@.config,
            acked_numbers(r.0@) == acked_in_range(new_bbr2_lost@, ack_begin_num, ack_end_num),
            forall|i: int| 0 <= i < r.0@.len() ==> (#[trigger] r.0@[i]).time_sent == now,
            lost_pairs(r.1@) == lost_in_range(new_bbr2_lost@, ack_begin_num, ack_end_num),
    {
        let mut acked_packets: Vec<Acked> = Vec::new();
        let mut lost_packets: Vec<Lost> = Vec::new();
        let ghost lost = new_bbr2_lost@;
        let ghost in_range = |e: (u64, usize)| ack_begin_num <= e.0 && e.0 <= ack_end_num;

        let n = new_bbr2_lost.len();
        let mut i: usize = 0;
        while i < n
            invariant
                n == lost.len(),
                lost == new_bbr2_lost@,
                i <= n,
                in_range == (|e: (u64, usize)| ack_begin_num <= e.0 && e.0 <= ack_end_num),
                lost_pairs(lost_packets@) == lost.take(i as int).filter(in_range),
                forall|t: int| 0 <= t < lost_packets@.len() ==> {
                    let pn = (#[trigger] lost_packets@[t]).packet_number;
                    &&& ack_begin_num <= pn <= ack_end_num
                    &&& reported_lost(lost, pn)
                },
                forall|q: int| 0 <= q < i && ack_begin_num <= (#[trigger] lost[q]).0 <= ack_end_num
                    ==> exists|t: int| 0 <= t < lost_packets@.len()
                        && (#[trigger] lost_packets@[t]).packet_number == lost[q].0,
            decreases n - i,
        {
            let (packet_number, bytes_lost) = new_bbr2_lost[i];
            proof {
                reveal_with_fuel(Seq::<_>::filter, 1);
                assert(lost.take(i + 1).drop_last() =~= lost.take(i as int));
            }
            let ghost before = lost_packets@;
            if packet_number >= ack_begin_num && packet_number <= ack_end_num {
                lost_packets.push(Lost { packet_number, bytes_lost });
                proof {
                    assert(lost[i as int].0 == packet_number);
                    assert(lost_packets@[before.len() as int].packet_number == packet_number);
                }
            }
            proof {
                assert forall|t: int| 0 <= t < lost_packets@.len() implies {
                    let pn = (#[trigger] lost_packets@[t]).packet_number;
                    &&& ack_begin_num <= pn <= ack_end_num
                    &&& reported_lost(lost, pn)
                } by {
                    if t < before.len() {
                        assert(lost_packets@[t] == before[t]);
                    } else {
                        assert(lost[i as int].0 == lost_packets@[t].packet_number);
                    }
                }
                assert forall|q: int| 0 <= q < i + 1 && ack_begin_num <= (#[trigger] lost[q]).0 <= ack_end_num
                    implies exists|t: int| 0 <= t < lost_packets@.len()
                        && (#[trigger] lost_packets@[t]).packet_number == lost[q].0 by {
                    if q < i {
                        let t = choose|t: int| 0 <= t < before.len()
                            && (#[trigger] before[t]).packet_number == lost[q].0;
                        assert(lost_packets@[t] == before[t]);
                    } else {
                        assert(lost_packets@[before.len() as int].packet_number == lost[q].0);
                    }
                }
            }
            assert(lost_pairs(lost_packets@) =~= lost.take(i + 1).filter(in_range));
            i = i + 1;
        }
        assert(lost.take(n as int) =~= lost);

        let mut lost_set: HashSet<u64> = HashSet::new();
        let m = lost_packets.len();
        let mut j: usize = 0;
        while j < m
            invariant
                m == lost_packets@.len(),
                j <= m,
                forall|k: u64| #[trigger] lost_set@.contains(k) <==>
                    exists|t: int| 0 <= t < j && (#[trigger] lost_packets@[t]).packet_number == k,
            decreases m - j,
        {
            lost_set.insert(lost_packets[j].packet_number);
            proof {
                assert forall|k: u64| #[trigger] lost_set@.contains(k) <==>
                    exists|t: int| 0 <= t < j + 1 && (#[trigger] lost_packets@[t]).packet_number == k by {
                    if lost_set@.contains(k) && k == lost_packets@[j as int].packet_number {
                        assert(lost_packets@[j as int].packet_number == k);
                    }
                }
            }
            j = j + 1;
        }
        proof {
            assert forall|k: u64| ack_begin_num <= k <= ack_end_num implies
                (#[trigger] lost_set@.contains(k) <==> reported_lost(lost, k)) by {
                if reported_lost(lost, k) {
                    let q = choose|q: int| 0 <= q < lost.len() && (#[trigger] lost[q]).0 == k;
                    assert(ack_begin_num <= lost[q].0 <= ack_end_num);
                }
                if lost_set@.contains(k) {
                    let t = choose|t: int| 0 <= t < m && (#[trigger] lost_packets@[t]).packet_number == k;
                    assert(reported_lost(lost, lost_packets@[t].packet_number));
                }
            }
        }

        let ghost range = ack_range(ack_begin_num, ack_end_num);
        let ghost keep = |k: u64| !reported_lost(lost, k);
        assert(range.take(0).filter(keep) =~= Seq::<u64>::empty()) by {
            reveal_with_fuel(Seq::<_>::filter, 1);
        }
        if ack_begin_num <= ack_end_num {
            let mut pn = ack_begin_num;
            while pn < ack_end_num
                invariant
                    ack_begin_num <= pn <= ack_end_num,
                    range == ack_range(ack_begin_num, ack_end_num),
                    keep == (|k: u64| !reported_lost(lost, k)),
                    acked_numbers(acked_packets@) == range.take(pn - ack_begin_num).filter(keep),
                    forall|t: int| 0 <= t < acked_packets@.len() ==> (#[trigger] acked_packets@[t]).time_sent == now,
                    forall|k: u64| ack_begin_num <= k <= ack_end_num ==>
                        (#[trigger] lost_set@.contains(k) <==> reported_lost(lost, k)),
                decreases ack_end_num - pn,
            {
                Self::visit_packet(&mut acked_packets, &lost_set, pn, now, Ghost(lost), ack_begin_num, ack_end_num);
                pn = pn + 1;
            }
            Self::visit_packet(&mut acked_packets, &lost_set, pn, now, Ghost(lost), ack_begin_num, ack_end_num);
            assert(range.take(range.len() as int) =~= range);
        }

        (acked_packets, lost_packets)
    }

    /// A congestion event that covers every packet up to
    /// `max_acked_pkt_num`: the packets from the first uncovered one up to
    /// it are split into ACKed and lost ones (ACKed ones stamped with
    /// `now`), and become the congestion event handed to the engine, with
    /// the given flight sizes, event time and least unACKed packet. The
    /// next event starts after `max_acked_pkt_num`.
    pub fn on_new_bbr2_congestion(
        &mut self,
        prior_in_flight: usize,
        bytes_in_flight: usize,
        event_time: u64,
        max_acked_pkt_num: u64,
        max_acked_pkts_acked_time: u64,
        new_bbr2_lost: &Vec<(u64, usize)>,
        least_unacked: u64,
        now: u64,
    ) -> (r: Bbr2CongestionEvent)
        requires
            max_acked_pkt_num < u64::MAX,
        ensures
            final(self)@.next_acked_pkt_num == next_uncovered(max_acked_pkt_num),
            final(self)@.config == old(self)@.config,
            initial_window_bytes(final(self)@) == initial_window_bytes(old(self)@),
            final(self)@ == (NewBbr2View {
                next_acked_pkt_num: (max_acked_pkt_num + 1) as u64,
                ..old(self)@
            }),
            !r.rtt_updated,
            r.prior_in_flight == prior_in_flight,
            r.bytes_in_flight == bytes_in_flight,
            r.event_time == event_time,
            r.least_unacked == least_unacked,
            acked_numbers(r.acked_packets@) == acked_in_range(
                new_bbr2_lost@,
                old(self)@.next_acked_pkt_num,
                max_acked_pkt_num,
            ),
            forall|i: int| 0 <= i < r.acked_packets@.len() ==> (#[trigger] r.acked_packets@[i]).time_sent == now,
            lost_pairs(r.lost_packets@) == lost_in_range(
                new_bbr2_lost@,
                old(self)@.next_acked_pkt_num,
                max_acked_pkt_num,
            ),
    {
        let rtt_updated = false;
        let (acked_packets, lost_packets) = self.generate_packet_lists(
            self.next_acked_pkt_num,
            max_acked_pkt_num,
            new_bbr2_lost,
            now,
        );
        self.next_acked_pkt_num = max_acked_pkt_num + 1;
        Bbr2CongestionEvent {
            rtt_updated,
            prior_in_flight,
            bytes_in_flight,
            event_time,
            acked_packets,
            lost_packets,
            least_unacked,
        }
    }

    /// An application-limited signal reaches the engine, with the bytes in
    /// flight, only when the connection is application-limited.
    pub fn on_app_limited(&self, bytes_in_flight: usize, app_limited: bool) -> (r: Option<usize>)
        ensures
            r == app_limited_signal(bytes_in_flight, app_limited),
            r == if app_limited { Some(bytes_in_flight) } else { None::<usize> },
    {
        if app_limited {
            Some(bytes_in_flight)
        } else {
            None
        }
    }

    /// The segment size that the engine takes on a new path MTU: the MTU.
    pub fn on_mtu_update(&self, new_mtu: u16) -> (mss: usize)
        ensures
            mss == mss_for_mtu(new_mtu),
            mss == new_mtu as usize,
    {
        new_mtu as usize
    }

    /// The initial congestion window in bytes: the configured number of
    /// packets times the base datagram size.
    pub fn initial_window(&self) -> (r: u64)
        requires
            initial_window_bytes(self@) <= u64::MAX,
        ensures
            r == initial_window_bytes(self@),
    {
        self.config.initial_congestion_window as u64 * BASE_DATAGRAM_SIZE
    }

    /// The number of the first packet that no congestion event has covered.
    pub fn next_acked_pkt_num(&self) -> (r: u64)
        ensures
            r == self@.next_acked_pkt_num,
    {
        self.next_acked_pkt_num
    }
}

/// The initial window of a driver is its configured packet count times the
/// base datagram size of 1400 bytes, whatever segment size or packet
/// bookkeeping the driver has: drivers with one configuration report one
/// initial window.
pub proof fn law_initial_window_from_configuration(v: NewBbr2View, w: NewBbr2View)
    ensures
        initial_window_bytes(v) == v.config.initial_congestion_window * 1400,
        v.config == w.config ==> initial_window_bytes(v) == initial_window_bytes(w),
{
}

/// The default configuration is ten packets of initial window, 20 000
/// packets of maximum window, 1400-byte segments and a 333 ms initial RTT;
/// setting the initial window to `value` packets keeps the rest of it.
pub proof fn law_configuration_values(value: u64)
    ensures
        default_config().initial_congestion_window == 10,
        default_config().max_congestion_window == 20_000,
        default_config().max_segment_size == 1400,
        default_config().smoothed_rtt == 333_000_000,
        configured_with_initial_window(value).initial_congestion_window == value as usize,
        configured_with_initial_window(value).max_congestion_window == 20_000,
        configured_with_initial_window(value).max_segment_size == 1400,
        configured_with_initial_window(value).smoothed_rtt == 333_000_000,
{
}

/// The engine starts with the larger of the configured segment size and the
/// path MTU, and its other settings come from the configuration.
pub proof fn law_engine_setup(max_segment_size: usize, current_mtu: u16, v: NewBbr2View)
    ensures
        engine_mss_for(max_segment_size, current_mtu) >= max_segment_size,
        engine_mss_for(max_segment_size, current_mtu) >= current_mtu,
        engine_mss_for(max_segment_size, current_mtu) == max_segment_size
            || engine_mss_for(max_segment_size, current_mtu) == current_mtu,
        setup_of(v).initial_congestion_window == v.config.initial_congestion_window,
        setup_of(v).max_congestion_window == v.config.max_congestion_window,
        setup_of(v).max_segment_size == v.engine_mss,
        setup_of(v).smoothed_rtt == v.config.smoothed_rtt,
{
}

/// A congestion event covering packets up to `max_acked` leaves the next
/// event to start right after it, so a run of events neither skips nor
/// repeats a packet number.
pub proof fn law_next_event_starts_after(max_acked: u64, maxes: Seq<u64>, i: int)
    requires
        0 <= i < maxes.len(),
    ensures
        next_uncovered(max_acked) == max_acked + 1,
        event_begin(maxes, i + 1) == maxes[i] + 1,
        event_begin(maxes, 0) == 0,
{
}

/// The engine hears of an application-limited connection, with its bytes in
/// flight, exactly when the connection is application-limited; on a new
/// path MTU it takes the MTU as its segment size.
pub proof fn law_engine_signals(bytes_in_flight: usize, app_limited: bool, new_mtu: u16)
    ensures
        app_limited_signal(bytes_in_flight, app_limited) is Some <==> app_limited,
        app_limited ==> app_limited_signal(bytes_in_flight, app_limited) == Some(bytes_in_flight),
        mss_for_mtu(new_mtu) == new_mtu,
{
}

} // verus!
