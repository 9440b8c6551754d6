//! Windowed RTT filters: a minimum over a time window and a maximum
//! over a round.

use vstd::prelude::*;
use crate::clock::{elapsed_millis, spec_elapsed_millis};

verus! {

/// The state of a [`WinFilterMin`].
pub struct MinFilterView {
    /// The current minimum (`u64::MAX` when no sample since the last restart).
    pub min_rtt: u64,
    /// The window length in milliseconds.
    pub window_duration: u64,
    /// The time of the last restart.
    pub last_update_time: u64,
}

/// The state of a [`WinFilterMax`].
pub struct MaxFilterView {
    /// The largest sample of the current round.
    pub max_rtt: u64,
    /// A round counter that the filter keeps at zero.
    pub round_count: u32,
    /// The round of the last sample.
    pub last_round_count: u32,
}

/// Whether a sample at `now` restarts the window of `f`.
pub open spec fn min_filter_expires(f: MinFilterView, now: u64) -> bool {
    spec_elapsed_millis(now, f.last_update_time) > f.window_duration
}

/// The state of a minimum filter `f` after it takes the sample `rtt` at `now`.
pub open spec fn min_filter_after(f: MinFilterView, now: u64, rtt: u64) -> MinFilterView {
    let expired = min_filter_expires(f, now);
    let prior = if expired { u64::MAX } else { f.min_rtt };
    MinFilterView {
        min_rtt: if rtt < prior { rtt } else { prior },
        window_duration: f.window_duration,
        last_update_time: if expired { now } else { f.last_update_time },
    }
}

/// The state of a maximum filter `f` after it takes the sample `rtt` in round `round`.
pub open spec fn max_filter_after(f: MaxFilterView, round: u32, rtt: u64) -> MaxFilterView {
    let prior = if round != f.last_round_count { 0 } else { f.max_rtt };
    MaxFilterView {
        max_rtt: if rtt > prior { rtt } else { prior },
        round_count: f.round_count,
        last_round_count: round,
    }
}

/// A windowed minimum filter over RTT samples: the minimum restarts once
/// more than `window_duration` milliseconds have passed since the last
/// restart.
pub struct WinFilterMin {
    min_rtt: u64,
    window_duration: u64,
    last_update_time: u64,
}

impl View for WinFilterMin {
    type V = MinFilterView;

    closed spec fn view(&self) -> MinFilterView {
        MinFilterView {
            min_rtt: self.min_rtt,
            window_duration: self.window_duration,
            last_update_time: self.last_update_time,
        }
    }
}

impl WinFilterMin {
    /// A fresh filter, with no sample, whose window starts at `now`.
    pub fn new(window_duration: u64, now: u64) -> (r: Self)
        ensures
            r@ == (MinFilterView {
                min_rtt: u64::MAX,
                window_duration: window_duration,
                last_update_time: now,
            }),
    {
        WinFilterMin { min_rtt: u64::MAX, window_duration, last_update_time: now }
    }

    /// Feeds the sample `rtt` taken at `now`.
    pub fn update(&mut self, now: u64, rtt: u64)
        ensures
            final(self)@ == min_filter_after(old(self)@, now, rtt),
    {
        if elapsed_millis(now, self.last_update_time) > self.window_duration {
            self.min_rtt = u64::MAX;
            self.last_update_time = now;
        }
        if rtt < self.min_rtt {
            self.min_rtt = rtt;
        }
    }

    /// The current minimum.
    pub fn get(&self) -> (r: u64)
        ensures
            r == self@.min_rtt,
    {
        self.min_rtt
    }
}

/// A per-round maximum filter over RTT samples: the maximum restarts with
/// every new round.
pub struct WinFilterMax {
    max_rtt: u64,
    round_count: u32,
    last_round_count: u32,
}

impl View for WinFilterMax {
    type V = MaxFilterView;

    closed spec fn view(&self) -> MaxFilterView {
        MaxFilterView {
            max_rtt: self.max_rtt,
            round_count: self.round_count,
            last_round_count: self.last_round_count,
        }
    }
}

impl WinFilterMax {
    /// A fresh filter with no sample, in round zero.
    pub fn new() -> (r: Self)
        ensures
            r@ == (MaxFilterView { max_rtt: 0, round_count: 0, last_round_count: 0 }),
    {
        WinFilterMax { max_rtt: 0, round_count: 0, last_round_count: 0 }
    }

    /// Feeds the sample `rtt` taken in round `round_count`.
    pub fn update(&mut self, round_count: u32, rtt: u64)
        ensures
            final(self)@ == max_filter_after(old(self)@, round_count, rtt),
    {
        if round_count != self.last_round_count {
            self.max_rtt = 0;
            self.last_round_count = round_count;
        }
        if rtt > self.max_rtt {
            self.max_rtt = rtt;
        }
    }

    /// The largest sample of the current round.
    pub fn get(&self) -> (r: u64)
        ensures
            r == self@.max_rtt,
    {
        self.max_rtt
    }
}


/// A minimum filter never reports more than the sample it has just taken.
pub proof fn law_min_filter_at_most_sample(f: MinFilterView, now: u64, rtt: u64)
    ensures
        min_filter_after(f, now, rtt).min_rtt <= rtt,
{
}

/// Within its window (no restart at `now`), a minimum filter's value never
/// rises.
pub proof fn law_min_filter_never_rises_within_window(f: MinFilterView, now: u64, rtt: u64)
    requires
        !min_filter_expires(f, now),
    ensures
        min_filter_after(f, now, rtt).min_rtt <= f.min_rtt,
        min_filter_after(f, now, rtt).last_update_time == f.last_update_time,
{
}

/// Once its window has run out, a minimum filter forgets every earlier
/// sample: its value is the new sample and its window starts again at `now`.
pub proof fn law_min_filter_restarts_after_window(f: MinFilterView, now: u64, rtt: u64)
    requires
        min_filter_expires(f, now),
    ensures
        min_filter_after(f, now, rtt).min_rtt == rtt,
        min_filter_after(f, now, rtt).last_update_time == now,
{
}

/// A maximum filter never reports less than the sample it has just taken.
pub proof fn law_max_filter_at_least_sample(f: MaxFilterView, round: u32, rtt: u64)
    ensures
        max_filter_after(f, round, rtt).max_rtt >= rtt,
        max_filter_after(f, round, rtt).last_round_count == round,
{
}

/// Within a round, a maximum filter's value never falls; a new round
/// forgets the samples of the old one.
pub proof fn law_max_filter_per_round(f: MaxFilterView, round: u32, rtt: u64)
    ensures
        round == f.last_round_count ==> max_filter_after(f, round, rtt).max_rtt >= f.max_rtt,
        round != f.last_round_count ==> max_filter_after(f, round, rtt).max_rtt == rtt,
{
}

/// A sample restarts a minimum filter exactly when more whole milliseconds
/// than its window have passed since its last restart; it then holds the
/// sample and restarts its window now. Otherwise it holds the smaller of
/// its minimum and the sample. The window length never changes.
pub proof fn law_min_filter_update(f: MinFilterView, now: u64, rtt: u64)
    ensures
        ({
            let g = min_filter_after(f, now, rtt);
            let expired = now >= f.last_update_time
                && (now - f.last_update_time) / 1_000_000 > f.window_duration;
            &&& g.window_duration == f.window_duration
            &&& expired ==> g.min_rtt == rtt && g.last_update_time == now
            &&& !expired ==> {
                &&& g.min_rtt == if rtt < f.min_rtt { rtt } else { f.min_rtt }
                &&& g.last_update_time == f.last_update_time
            }
        }),
{
}

/// A sample of the filter's current round raises the maximum to the sample
/// if it is larger; a sample of another round replaces the maximum and makes
/// that round current.
pub proof fn law_max_filter_update(f: MaxFilterView, round: u32, rtt: u64)
    ensures
        ({
            let g = max_filter_after(f, round, rtt);
            &&& g.last_round_count == round
            &&& g.round_count == f.round_count
            &&& round == f.last_round_count ==> g.max_rtt == if rtt > f.max_rtt { rtt } else { f.max_rtt }
            &&& round != f.last_round_count ==> g.max_rtt == rtt
        }),
{
}

} // verus!
