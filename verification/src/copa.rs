//! The integer window machine of the Copa congestion controller.
//!
//! Copa's rate comparisons and its `delta` and `v` parameters are
//! floating-point values; they live with the caller. Each step of an ACK is
//! one method here, and the caller hands back the outcome of a floating-point
//! decision where the step needs one (see [`Copa::on_ack_start`]).

use vstd::prelude::*;
use crate::clock::{elapsed_millis, spec_elapsed_millis};
use crate::filter::{
    MinFilterView, MaxFilterView, WinFilterMin, WinFilterMax, min_filter_after, max_filter_after,
};

verus! {

/// The window of the long-term minimum RTT filter, in milliseconds.
pub const RTT_MIN_WINDOW_MILLIS: u64 = 10 * 1000;

/// The direction in which the window moved over the last round.
#[derive(PartialEq, Eq, Structural, Clone, Copy, Debug)]
pub enum CopaDirection {
    Undef,
    Up,
    Down,
}

/// Copa's operating mode.
#[derive(PartialEq, Eq, Structural, Clone, Copy, Debug)]
pub enum CopaMode {
    DelayMode,
    CompetitiveMode,
}

/// The integer state of a [`Copa`] controller.
pub struct CopaView {
    pub init_cwnd_bytes: u64,
    pub cwnd_bytes: u64,
    pub last_round_cwnd_bytes: u64,
    pub pacing_rate: u64,
    pub rtt_standing: MinFilterView,
    pub rtt_min: MinFilterView,
    pub rtt_max: MaxFilterView,
    pub curr_dir: CopaDirection,
    pub prev_dir: CopaDirection,
    pub same_dir_cnt: u32,
    pub mode: CopaMode,
    pub t_last_delay_min: u64,
    pub in_slow_start: bool,
    pub recovery_start_time: Option<u64>,
    pub round_cnt: u32,
    pub next_round_threshold: u64,
    pub round_start: bool,
    pub cwnd_adjustment_accumulated: i64,
    pub current_mtu: u64,
}

/// What the first step of an ACK measured: the queueing delay and the
/// standing RTT, and whether Copa went back to delay mode (its `delta` then
/// returns to the base value).
pub struct AckSample {
    pub delay: u64,
    pub rtt_standing: u64,
    pub entered_delay_mode: bool,
}

/// What a new round asks of the velocity `v`: restart it at one (the
/// direction changed) and double it (the direction held for more than three
/// rounds).
pub struct RoundUpdate {
    pub reset_v: bool,
    pub double_v: bool,
}

/// What a congestion event asks of `delta` and `v`: double `delta` (capped
/// at its maximum; Copa was in competitive mode), and restart both (the
/// congestion was persistent).
pub struct CongestionReaction {
    pub widen_delta: bool,
    pub reset_rates: bool,
}

/// The divisor of the pacing rate: the standing RTT, or the MTU while the
/// standing filter holds no sample.
pub open spec fn pacing_divisor(rtt_standing: u64, mtu: u64) -> u64 {
    if rtt_standing == u64::MAX {
        mtu
    } else {
        rtt_standing
    }
}

/// Whether a round starting in state `s` keeps the direction of the last
/// round (and so counts one more round in it).
pub open spec fn round_direction_holds(s: CopaView) -> bool {
    let new_dir = if s.cwnd_bytes > s.last_round_cwnd_bytes {
        CopaDirection::Up
    } else {
        CopaDirection::Down
    };
    s.round_start && new_dir == s.curr_dir
}

/// Whether the pacing rate of a window `cwnd` can be computed without
/// overflow or a zero divisor.
pub open spec fn pacing_defined(cwnd: u64, rtt_standing: u64, mtu: u64) -> bool {
    &&& 2 * cwnd * 1_000_000 <= u64::MAX
    &&& pacing_divisor(rtt_standing, mtu) > 0
}

/// The pacing rate: `2 * cwnd * 1_000_000` over the pacing divisor, and
/// never below one MTU.
pub open spec fn spec_pacing_rate(cwnd: u64, rtt_standing: u64, mtu: u64) -> u64 {
    let rate = (2 * cwnd * 1_000_000) / (pacing_divisor(rtt_standing, mtu) as int);
    if rate >= mtu {
        rate as u64
    } else {
        mtu
    }
}

/// The larger of two windows.
pub open spec fn max_u64(a: u64, b: u64) -> u64 {
    if a >= b {
        a
    } else {
        b
    }
}

/// The state after the bookkeeping of an ACK of `bytes` for a packet sent
/// at `sent`, whose RTT sample is `latest_rtt`, at `now`: a new round starts,
/// a recovery period ends once a packet sent after its start is ACKed, and
/// the three filters take the sample.
pub open spec fn ack_bookkeeping(s: CopaView, now: u64, sent: u64, bytes: u64, latest_rtt: u64) -> CopaView {
    let round = (s.round_cnt + 1) as u32;
    CopaView {
        round_cnt: round,
        next_round_threshold: (s.next_round_threshold + bytes) as u64,
        round_start: true,
        recovery_start_time: match s.recovery_start_time {
            Some(start) => if sent > start { None } else { Some(start) },
            None => None,
        },
        rtt_min: min_filter_after(s.rtt_min, now, latest_rtt),
        rtt_standing: min_filter_after(s.rtt_standing, now, latest_rtt),
        rtt_max: max_filter_after(s.rtt_max, round, latest_rtt),
        ..s
    }
}

/// Whether the queueing delay `delay` is within a tenth of the RTT spread of
/// the round, in the state `b`.
pub open spec fn delay_is_minimal(b: CopaView, delay: int) -> bool {
    delay <= (b.rtt_max.max_rtt - b.rtt_min.min_rtt) / 10
}


/// The window after a slow-start ACK of `bytes`: doubled when the ACK covers
/// more than the window, otherwise grown by the ACKed bytes.
pub open spec fn slow_start_growth(cwnd: u64, bytes: u64) -> int {
    if bytes > cwnd {
        2 * cwnd
    } else {
        cwnd + bytes
    }
}

/// The signed credit that an ACK adds to the window adjustment.
pub open spec fn aiad_credit(rate_above_target: bool, numerator_bytes: u64) -> int {
    if rate_above_target {
        -(numerator_bytes as i64)
    } else {
        (numerator_bytes as i64) as int
    }
}

/// Whether the window adjustment of an ACK runs without overflow or a zero
/// divisor.
pub open spec fn adjust_defined(s: CopaView, rate_above_target: bool, numerator_bytes: u64) -> bool {
    let acc = s.cwnd_adjustment_accumulated + aiad_credit(rate_above_target, numerator_bytes);
    let cw = s.cwnd_bytes as int;
    let mtu = s.current_mtu as int;
    &&& !(rate_above_target && numerator_bytes as i64 == i64::MIN)
    &&& i64::MIN <= acc <= i64::MAX
    &&& cw <= i64::MAX
    &&& mtu <= i64::MAX
    &&& cw == 0 ==> acc == 0
    &&& (acc > 0 && acc >= cw && cw > 0) ==> {
        let d = acc / cw;
        &&& d * mtu <= i64::MAX
        &&& cw + d * mtu <= u64::MAX
    }
    &&& (acc < 0 && acc <= -cw && cw > 0) ==> {
        &&& acc != i64::MIN
        &&& (-acc / cw) * mtu <= i64::MAX
    }
    &&& 4 * mtu <= u64::MAX
    &&& pacing_defined(
        max_u64(adjust_window(s, acc), (4 * mtu) as u64),
        s.rtt_standing.min_rtt,
        s.current_mtu,
    )
}

/// The window after the accumulated credit `acc` is turned into whole MTUs:
/// each whole window of positive credit adds one MTU, each whole window of
/// negative credit takes one away (never below zero).
pub open spec fn adjust_window(s: CopaView, acc: int) -> u64 {
    let cw = s.cwnd_bytes as int;
    let mtu = s.current_mtu as int;
    if acc > 0 && acc >= cw {
        (cw + (acc / cw) * mtu) as u64
    } else if acc < 0 && acc <= -cw {
        let d = (-acc / cw) * mtu;
        if d <= cw {
            (cw - d) as u64
        } else {
            0
        }
    } else {
        s.cwnd_bytes
    }
}

/// The credit left after whole windows are taken out of `acc`.
pub open spec fn adjust_remainder(s: CopaView, acc: int) -> i64 {
    let cw = s.cwnd_bytes as int;
    if acc > 0 && acc >= cw {
        (acc - (acc / cw) * cw) as i64
    } else if acc < 0 && acc <= -cw {
        (acc + (-acc / cw) * cw) as i64
    } else {
        acc as i64
    }
}

/// The pacing rate is never below one MTU.
pub proof fn law_pacing_rate_at_least_mtu(cwnd: u64, rtt_standing: u64, mtu: u64)
    requires
        pacing_defined(cwnd, rtt_standing, mtu),
    ensures
        spec_pacing_rate(cwnd, rtt_standing, mtu) >= mtu,
        spec_pacing_rate(cwnd, rtt_standing, mtu) as int == vstd::math::max(
            (2 * cwnd * 1_000_000) / (pacing_divisor(rtt_standing, mtu) as int),
            mtu as int,
        ),
{
    let x = 2 * cwnd * 1_000_000;
    let d = pacing_divisor(rtt_standing, mtu) as int;
    assert(x / d <= x) by (nonlinear_arith)
        requires x >= 0, d > 0;
}

/// A slow-start ACK never shrinks the window.
pub proof fn law_slow_start_never_shrinks(cwnd: u64, bytes: u64)
    ensures
        slow_start_growth(cwnd, bytes) >= cwnd,
        slow_start_growth(cwnd, bytes) <= 2 * cwnd || slow_start_growth(cwnd, bytes) == cwnd + bytes,
{
}

/// The signed number of whole windows in the credit `acc`, as the window
/// adjustment counts them (zero while less than one window has built up).
pub open spec fn whole_windows(s: CopaView, acc: int) -> int {
    let cw = s.cwnd_bytes as int;
    if acc > 0 && acc >= cw {
        acc / cw
    } else if acc < 0 && acc <= -cw {
        -((-acc) / cw)
    } else {
        0
    }
}

/// The window adjustment of an ACK leaves less than one window of credit,
/// in either direction, and converts the rest exactly: it takes out a whole
/// number of windows of credit and moves the window by one MTU for each
/// (never below zero).
pub proof fn law_adjust_keeps_less_than_a_window(s: CopaView, acc: int)
    requires
        s.cwnd_bytes > 0,
        i64::MIN < acc <= i64::MAX,
        (acc > 0 && acc >= s.cwnd_bytes) ==> s.cwnd_bytes + whole_windows(s, acc) * s.current_mtu <= u64::MAX,
    ensures
        -(s.cwnd_bytes as int) < adjust_remainder(s, acc) < s.cwnd_bytes,
        acc - adjust_remainder(s, acc) == whole_windows(s, acc) * s.cwnd_bytes,
        ({
            let moved = s.cwnd_bytes + whole_windows(s, acc) * s.current_mtu;
            adjust_window(s, acc) == if moved >= 0 { moved } else { 0 }
        }),
{
    let cw = s.cwnd_bytes as int;
    let mtu = s.current_mtu as int;
    if acc > 0 && acc >= cw {
        let d = acc / cw;
        assert(acc - d * cw >= 0 && acc - d * cw < cw) by (nonlinear_arith)
            requires d == acc / cw, cw > 0, acc > 0;
        assert(d >= 0 && d * mtu >= 0) by (nonlinear_arith)
            requires d == acc / cw, cw > 0, acc > 0, mtu >= 0;
        assert(whole_windows(s, acc) == d);
        assert(adjust_remainder(s, acc) == acc - d * cw);
        assert(adjust_window(s, acc) == cw + d * mtu);
    } else if acc < 0 && acc <= -cw {
        let d = (-acc) / cw;
        assert(-acc - d * cw >= 0 && -acc - d * cw < cw) by (nonlinear_arith)
            requires d == (-acc) / cw, cw > 0, -acc > 0;
        assert(-d * mtu == -(d * mtu)) by (nonlinear_arith);
        assert(-d * cw == -(d * cw)) by (nonlinear_arith);
        assert(whole_windows(s, acc) == -d);
        assert(adjust_remainder(s, acc) == acc + d * cw);
        let dd = d * mtu;
        assert(adjust_window(s, acc) == if dd <= cw { cw - dd } else { 0 });
    } else {
        assert(whole_windows(s, acc) == 0);
        assert(adjust_remainder(s, acc) == acc);
        assert(adjust_window(s, acc) == cw);
    }
}

proof fn lemma_adjust_keeps_window_positive(s: CopaView, acc: int)
    requires
        s.cwnd_bytes > 0,
        s.current_mtu == 0,
    ensures
        adjust_window(s, acc) == s.cwnd_bytes,
{
    let cw = s.cwnd_bytes as int;
    let mtu = s.current_mtu as int;
    if acc > 0 && acc >= cw {
        assert((acc / cw) * mtu == 0) by (nonlinear_arith) requires mtu == 0;
    } else if acc < 0 && acc <= -cw {
        assert(((-acc) / cw) * mtu == 0) by (nonlinear_arith) requires mtu == 0;
    }
}

/// After the adjustment of an ACK the window is at least four MTUs.
pub proof fn law_adjust_keeps_window_floor(s: CopaView, rate_above_target: bool, numerator_bytes: u64)
    requires
        adjust_defined(s, rate_above_target, numerator_bytes),
    ensures
        ({
            let acc = s.cwnd_adjustment_accumulated + aiad_credit(rate_above_target, numerator_bytes);
            max_u64(adjust_window(s, acc), (4 * s.current_mtu) as u64) >= 4 * s.current_mtu
        }),
{
}

/// A new path MTU never shrinks the window, and leaves it at four MTUs at
/// least.
pub proof fn law_mtu_update_never_shrinks(cwnd: u64, new_mtu: u64)
    requires
        4 * new_mtu <= u64::MAX,
    ensures
        max_u64(cwnd, (4 * new_mtu) as u64) >= cwnd,
        max_u64(cwnd, (4 * new_mtu) as u64) >= 4 * new_mtu,
{
}

/// Whether a congestion signal for a packet sent at `sent_time` is
/// ignored: the packet predates the current recovery period.
pub open spec fn congestion_ignored(s: CopaView, sent_time: u64) -> bool {
    s.recovery_start_time matches Some(start) && sent_time < start
}

/// Whether a congestion signal runs without overflow or a zero divisor: a
/// persistent one that is not ignored drops the window to four MTUs and
/// computes its pacing rate.
pub open spec fn congestion_defined(s: CopaView, sent_time: u64, is_persistent: bool) -> bool {
    is_persistent && !congestion_ignored(s, sent_time) ==> {
        &&& 4 * s.current_mtu <= u64::MAX
        &&& pacing_defined((4 * s.current_mtu) as u64, u64::MAX, s.current_mtu)
    }
}

/// The outcome of a congestion signal for a packet sent at `sent_time`,
/// at `now`: `None` when the packet predates the current recovery period
/// (the signal is ignored), otherwise the next state and what `delta` and
/// `v` must do.
pub open spec fn congestion_outcome(
    s: CopaView,
    sent_time: u64,
    is_persistent: bool,
    now: u64,
) -> Option<(CopaView, CongestionReaction)> {
    if congestion_ignored(s, sent_time) {
        None
    } else {
        let b = CopaView { recovery_start_time: Some(now), ..s };
        let floor = (4 * s.current_mtu) as u64;
        let next = if is_persistent {
            CopaView {
                rtt_min: MinFilterView {
                    min_rtt: u64::MAX,
                    window_duration: RTT_MIN_WINDOW_MILLIS,
                    last_update_time: now,
                },
                rtt_max: MaxFilterView { max_rtt: 0, round_count: 0, last_round_count: 0 },
                rtt_standing: MinFilterView {
                    min_rtt: u64::MAX,
                    window_duration: half_mtu_window(s.current_mtu) as u64,
                    last_update_time: now,
                },
                curr_dir: CopaDirection::Undef,
                prev_dir: CopaDirection::Undef,
                same_dir_cnt: 0,
                mode: CopaMode::DelayMode,
                t_last_delay_min: now,
                in_slow_start: true,
                cwnd_adjustment_accumulated: 0,
                cwnd_bytes: floor,
                pacing_rate: spec_pacing_rate(floor, u64::MAX, s.current_mtu),
                ..b
            }
        } else {
            b
        };
        Some((
            next,
            CongestionReaction {
                widen_delta: s.mode == CopaMode::CompetitiveMode,
                reset_rates: is_persistent,
            },
        ))
    }
}

/// Once a congestion signal has started a recovery period at `now`, a
/// further signal for any packet sent before `now` is ignored: Copa reacts
/// at most once to the losses of one window.
pub proof fn law_one_reaction_per_recovery(
    s: CopaView,
    sent_time: u64,
    is_persistent: bool,
    now: u64,
    later_sent_time: u64,
    later_persistent: bool,
    later_now: u64,
)
    requires
        congestion_outcome(s, sent_time, is_persistent, now) is Some,
        later_sent_time < now,
    ensures
        congestion_outcome(
            congestion_outcome(s, sent_time, is_persistent, now).unwrap().0,
            later_sent_time,
            later_persistent,
            later_now,
        ) is None,
{
}

/// Persistent congestion leaves Copa in slow start and delay mode, with a
/// window of four MTUs and every filter empty.
pub proof fn law_persistent_congestion_restarts(s: CopaView, sent_time: u64, now: u64)
    requires
        congestion_outcome(s, sent_time, true, now) is Some,
        4 * s.current_mtu <= u64::MAX,
    ensures
        ({
            let next = congestion_outcome(s, sent_time, true, now).unwrap().0;
            &&& next.in_slow_start
            &&& next.mode == CopaMode::DelayMode
            &&& next.cwnd_bytes == 4 * s.current_mtu
            &&& next.rtt_min.min_rtt == u64::MAX
            &&& next.rtt_standing.min_rtt == u64::MAX
            &&& next.rtt_max.max_rtt == 0
            &&& next.cwnd_adjustment_accumulated == 0
        }),
        congestion_outcome(s, sent_time, true, now).unwrap().1.reset_rates,
{
}

/// The smallest integer that is a power of two at least 2^53: doubles are
/// exact below it.
pub const F64_EXACT_LIMIT: u64 = 0x20_0000_0000_0000;

/// The spacing of the doubles around `x`: one below 2^53, doubled with each
/// binade above.
pub open spec fn f64_spacing(x: nat) -> nat
    decreases x,
{
    if x < F64_EXACT_LIMIT {
        1
    } else {
        2 * f64_spacing(x / 2)
    }
}

/// The value of `x as f64`: the multiple of the spacing nearest to `x`,
/// the even multiple on a tie.
pub open spec fn round_to_f64(x: nat) -> nat {
    let u = f64_spacing(x);
    let q = x / u;
    let r = x % u;
    if 2 * r < u || (2 * r == u && q % 2 == 0) {
        q * u
    } else {
        (q + 1) * u
    }
}

/// The window of the standing-RTT filter for an MTU of `mtu` bytes: half an
/// MTU's worth of milliseconds, the value of `(0.5 * mtu as f64) as u64`.
pub open spec fn half_mtu_window(mtu: u64) -> int {
    (round_to_f64(mtu as nat) / 2) as int
}

proof fn lemma_f64_spacing_bound(x: nat)
    ensures
        f64_spacing(x) >= 1,
        x >= F64_EXACT_LIMIT ==> f64_spacing(x) * 0x10_0000_0000_0000 <= x,
    decreases x,
{
    if x >= F64_EXACT_LIMIT {
        lemma_f64_spacing_bound(x / 2);
    }
}

/// The standing window of any MTU fits in a `u64`.
pub proof fn lemma_half_mtu_window_fits(mtu: u64)
    ensures
        0 <= half_mtu_window(mtu) <= u64::MAX,
{
    let x = mtu as nat;
    lemma_f64_spacing_bound(x);
    let u = f64_spacing(x);
    assert(u <= 4096) by (nonlinear_arith)
        requires u >= 1, x <= u64::MAX, x >= F64_EXACT_LIMIT ==> u * 0x10_0000_0000_0000 <= x,
            x < F64_EXACT_LIMIT ==> u == 1;
    vstd::arithmetic::div_mod::lemma_fundamental_div_mod(x as int, u as int);
    let q = x / u;
    assert(q * u <= x && (q + 1) * u <= x + u) by (nonlinear_arith)
        requires x == u * q + x % u, 0 <= x % u, u >= 1, q >= 0;
}

/// The window of the standing-RTT filter for an MTU of `mtu` bytes: half an
/// MTU's worth of milliseconds. The MTU is first rounded as a double is, so
/// the result is that of `(0.5 * mtu as f64) as u64`; below 2^53 it is
/// `mtu / 2`.
pub fn standing_window(mtu: u64) -> (r: u64)
    ensures
        r == half_mtu_window(mtu),
        mtu < F64_EXACT_LIMIT ==> r == mtu / 2,
{
    let mut y: u64 = mtu;
    let mut u: u64 = 1;
    while y >= F64_EXACT_LIMIT
        invariant
            1 <= u <= 4096,
            u * y <= mtu,
            y as int == (mtu as int) / (u as int),
            f64_spacing(mtu as nat) == u * f64_spacing(y as nat),
        decreases y,
    {
        assert(u < 2048) by (nonlinear_arith)
            requires u * y <= mtu, y >= F64_EXACT_LIMIT, mtu <= u64::MAX, u >= 1;
        proof {
            vstd::arithmetic::div_mod::lemma_div_denominator(mtu as int, u as int, 2);
            assert(f64_spacing(y as nat) == 2 * f64_spacing((y / 2) as nat));
            assert(u * 2 * f64_spacing((y / 2) as nat) == u * (2 * f64_spacing((y / 2) as nat))) by (nonlinear_arith);
            assert((u * 2) * (y / 2) <= u * y) by (nonlinear_arith)
                requires u >= 1, y >= 0;
        }
        y = y / 2;
        u = u * 2;
    }
    proof {
        assert(f64_spacing(y as nat) == 1);
        vstd::arithmetic::div_mod::lemma_fundamental_div_mod(mtu as int, u as int);
    }
    let q = y as u128;
    let wide_u = u as u128;
    assert(q * wide_u == u * y) by (nonlinear_arith)
        requires q == y, wide_u == u;
    let rem = mtu as u128 - q * wide_u;
    assert(rem == (mtu as int) % (u as int));
    assert(q * wide_u <= (q + 1) * wide_u && (q + 1) * wide_u <= (u64::MAX as int + 1) * 4096) by (nonlinear_arith)
        requires q <= u64::MAX, 1 <= wide_u <= 4096;
    let rounded: u128 = if 2 * rem < wide_u || (2 * rem == wide_u && q % 2 == 0) {
        q * wide_u
    } else {
        (q + 1) * wide_u
    };
    proof {
        let x = mtu as nat;
        assert(f64_spacing(y as nat) == 1);
        assert(f64_spacing(mtu as nat) == u * f64_spacing(y as nat));
        assert(u * 1 == u);
        assert(f64_spacing(x) == u);
        assert(x / f64_spacing(x) == q);
        assert(x % f64_spacing(x) == rem);
        assert(rounded == round_to_f64(x));
    }
    assert(rounded / 2 <= u64::MAX) by (nonlinear_arith)
        requires
            rounded <= (q + 1) * wide_u,
            q * wide_u <= mtu,
            wide_u <= 4096,
            mtu <= u64::MAX;
    (rounded / 2) as u64
}

/// Whether the pacing rate of a window `cwnd` can be computed without
/// overflow or a zero divisor.
pub fn pacing_is_defined(cwnd: u64, rtt_standing: u64, mtu: u64) -> (r: bool)
    ensures
        r == pacing_defined(cwnd, rtt_standing, mtu),
{
    let divisor = if rtt_standing == u64::MAX { mtu } else { rtt_standing };
    (cwnd as u128) * 2_000_000 <= u64::MAX as u128 && divisor > 0
}

/// The next state and result of [`Copa::on_ack_start`].
pub open spec fn ack_start_outcome(
    s: CopaView,
    now: u64,
    sent: u64,
    bytes: u64,
    latest_rtt: u64,
) -> (CopaView, Option<AckSample>) {
    let b = ack_bookkeeping(s, now, sent, bytes, latest_rtt);
    let standing = b.rtt_standing.min_rtt;
    let minimum = b.rtt_min.min_rtt;
    if standing < minimum {
        (b, None)
    } else {
        let delay = standing - minimum;
        let calm = delay_is_minimal(b, delay);
        (
            if calm {
                CopaView { t_last_delay_min: now, mode: CopaMode::DelayMode, ..b }
            } else {
                b
            },
            Some(
                AckSample {
                    delay: delay as u64,
                    rtt_standing: standing,
                    entered_delay_mode: calm && b.mode != CopaMode::DelayMode,
                },
            ),
        )
    }
}

/// The next state and result of [`Copa::on_ack_slow_start`].
pub open spec fn slow_start_outcome(s: CopaView, bytes: u64, rate_above_target: bool) -> (CopaView, bool) {
    if !s.in_slow_start {
        (s, false)
    } else if rate_above_target {
        (CopaView { in_slow_start: false, ..s }, false)
    } else {
        let grown = slow_start_growth(s.cwnd_bytes, bytes) as u64;
        (
            CopaView {
                cwnd_bytes: grown,
                pacing_rate: spec_pacing_rate(grown, s.rtt_standing.min_rtt, s.current_mtu),
                ..s
            },
            true,
        )
    }
}

/// The next state and result of [`Copa::on_ack_round`].
pub open spec fn round_outcome(s: CopaView, now: u64, srtt: u64) -> (CopaView, Option<RoundUpdate>) {
    if !s.round_start {
        (s, None)
    } else {
        let turns_competitive = s.mode != CopaMode::CompetitiveMode
            && spec_elapsed_millis(now, s.t_last_delay_min) >= 5 * srtt;
        let mode = if turns_competitive { CopaMode::CompetitiveMode } else { s.mode };
        let new_dir = if s.cwnd_bytes > s.last_round_cwnd_bytes {
            CopaDirection::Up
        } else {
            CopaDirection::Down
        };
        let reset = new_dir != s.curr_dir;
        let cnt: u32 = if reset { 0 } else { (s.same_dir_cnt + 1) as u32 };
        (
            CopaView {
                mode: mode,
                last_round_cwnd_bytes: s.cwnd_bytes,
                same_dir_cnt: cnt,
                prev_dir: s.curr_dir,
                curr_dir: new_dir,
                ..s
            },
            Some(RoundUpdate { reset_v: reset, double_v: cnt > 3 }),
        )
    }
}

/// The next state of [`Copa::on_ack_adjust`].
pub open spec fn adjust_outcome(s: CopaView, rate_above_target: bool, numerator_bytes: u64) -> CopaView {
    let acc = s.cwnd_adjustment_accumulated + aiad_credit(rate_above_target, numerator_bytes);
    let floor = (4 * s.current_mtu) as u64;
    let cwnd = max_u64(adjust_window(s, acc), floor);
    CopaView {
        cwnd_adjustment_accumulated: adjust_remainder(s, acc),
        cwnd_bytes: cwnd,
        pacing_rate: spec_pacing_rate(cwnd, s.rtt_standing.min_rtt, s.current_mtu),
        ..s
    }
}

/// The next state of [`Copa::on_mtu_update`].
pub open spec fn mtu_update_outcome(s: CopaView, new_mtu: u64) -> CopaView {
    let cwnd = max_u64(s.cwnd_bytes, (4 * new_mtu) as u64);
    CopaView {
        current_mtu: new_mtu,
        cwnd_bytes: cwnd,
        pacing_rate: spec_pacing_rate(cwnd, s.rtt_standing.min_rtt, new_mtu),
        ..s
    }
}

/// The window floor of a Copa state: the window is positive and holds at
/// least four MTUs.
pub open spec fn window_floor_holds(s: CopaView) -> bool {
    s.cwnd_bytes >= 4 * s.current_mtu && s.cwnd_bytes > 0
}

/// What every step of Copa keeps from the state `before` to the state
/// `after`: the initial window, and the window floor where it held. With
/// [`Copa::new`] establishing both, every sequence of steps from a
/// controller with a positive MTU keeps its initial window of 32 MTUs and a
/// positive window of at least four MTUs.
pub open spec fn keeps_window_laws(before: CopaView, after: CopaView) -> bool {
    &&& after.init_cwnd_bytes == before.init_cwnd_bytes
    &&& window_floor_holds(before) ==> window_floor_holds(after)
}

/// The Copa controller's integer state.
pub struct Copa {
    init_cwnd_bytes: u64,
    cwnd_bytes: u64,
    last_round_cwnd_bytes: u64,
    pacing_rate: u64,
    rtt_standing: WinFilterMin,
    rtt_min: WinFilterMin,
    rtt_max: WinFilterMax,
    curr_dir: CopaDirection,
    prev_dir: CopaDirection,
    same_dir_cnt: u32,
    mode: CopaMode,
    t_last_delay_min: u64,
    in_slow_start: bool,
    recovery_start_time: Option<u64>,
    round_cnt: u32,
    next_round_threshold: u64,
    round_start: bool,
    cwnd_adjustment_accumulated: i64,
    current_mtu: u64,
}

impl View for Copa {
    type V = CopaView;

    closed spec fn view(&self) -> CopaView {
        CopaView {
            init_cwnd_bytes: self.init_cwnd_bytes,
            cwnd_bytes: self.cwnd_bytes,
            last_round_cwnd_bytes: self.last_round_cwnd_bytes,
            pacing_rate: self.pacing_rate,
            rtt_standing: self.rtt_standing@,
            rtt_min: self.rtt_min@,
            rtt_max: self.rtt_max@,
            curr_dir: self.curr_dir,
            prev_dir: self.prev_dir,
            same_dir_cnt: self.same_dir_cnt,
            mode: self.mode,
            t_last_delay_min: self.t_last_delay_min,
            in_slow_start: self.in_slow_start,
            recovery_start_time: self.recovery_start_time,
            round_cnt: self.round_cnt,
            next_round_threshold: self.next_round_threshold,
            round_start: self.round_start,
            cwnd_adjustment_accumulated: self.cwnd_adjustment_accumulated,
            current_mtu: self.current_mtu,
        }
    }
}

impl Copa {
    /// A controller for paths of `current_mtu` bytes, started at `now`: a
    /// window of 32 MTUs, in slow start and delay mode, its standing-RTT
    /// filter over half an MTU's worth of milliseconds.
    pub fn new(current_mtu: u64, now: u64) -> (r: Self)
        requires
            32 * current_mtu <= u64::MAX,
        ensures
            current_mtu > 0 ==> window_floor_holds(r@),
            r@ == (CopaView {
                init_cwnd_bytes: (32 * current_mtu) as u64,
                cwnd_bytes: (32 * current_mtu) as u64,
                last_round_cwnd_bytes: 0,
                pacing_rate: 0,
                rtt_standing: MinFilterView {
                    min_rtt: u64::MAX,
                    window_duration: half_mtu_window(current_mtu) as u64,
                    last_update_time: now,
                },
                rtt_min: MinFilterView {
                    min_rtt: u64::MAX,
                    window_duration: RTT_MIN_WINDOW_MILLIS,
                    last_update_time: now,
                },
                rtt_max: MaxFilterView { max_rtt: 0, round_count: 0, last_round_count: 0 },
                curr_dir: CopaDirection::Undef,
                prev_dir: CopaDirection::Undef,
                same_dir_cnt: 0,
                mode: CopaMode::DelayMode,
                t_last_delay_min: now,
                in_slow_start: true,
                recovery_start_time: None,
                round_cnt: 0,
                next_round_threshold: 0,
                round_start: false,
                cwnd_adjustment_accumulated: 0,
                current_mtu: current_mtu,
            }),
    {
        let init_cwnd_bytes = 32 * current_mtu;
        Copa {
            init_cwnd_bytes,
            cwnd_bytes: init_cwnd_bytes,
            last_round_cwnd_bytes: 0,
            pacing_rate: 0,
            rtt_standing: WinFilterMin::new(standing_window(current_mtu), now),
            rtt_min: WinFilterMin::new(RTT_MIN_WINDOW_MILLIS, now),
            rtt_max: WinFilterMax::new(),
            curr_dir: CopaDirection::Undef,
            prev_dir: CopaDirection::Undef,
            same_dir_cnt: 0,
            mode: CopaMode::DelayMode,
            t_last_delay_min: now,
            in_slow_start: true,
            recovery_start_time: None,
            round_cnt: 0,
            next_round_threshold: 0,
            round_start: false,
            cwnd_adjustment_accumulated: 0,
            current_mtu,
        }
    }

    /// Sets the pacing rate from the window and the standing RTT.
    fn set_pacing_rate(&mut self)
        requires
            pacing_defined(old(self)@.cwnd_bytes, old(self)@.rtt_standing.min_rtt, old(self)@.current_mtu),
        ensures
            final(self)@ == (CopaView {
                pacing_rate: spec_pacing_rate(old(self)@.cwnd_bytes, old(self)@.rtt_standing.min_rtt, old(self)@.current_mtu),
                ..old(self)@
            }),
    {
        let rtt_standing = self.rtt_standing.get();
        if rtt_standing == u64::MAX {
            self.pacing_rate = (2 * self.cwnd_bytes * 1_000_000) / self.current_mtu;
        } else {
            self.pacing_rate = (2 * self.cwnd_bytes * 1_000_000) / rtt_standing;
        }
        if self.pacing_rate < self.current_mtu {
            self.pacing_rate = self.current_mtu;
        }
    }

    /// The first step of an ACK of `bytes` at `now`, for a packet sent at
    /// `sent`, with the RTT sample `latest_rtt`: starts a round, ends a
    /// recovery period that the packet postdates, and feeds the filters.
    /// Then, unless the standing RTT is below the minimum RTT (the ACK then
    /// ends here, `None`), measures the queueing delay; a delay within a
    /// tenth of the round's RTT spread marks the time and returns Copa to
    /// delay mode.
    pub fn on_ack_start(&mut self, now: u64, sent: u64, bytes: u64, latest_rtt: u64) -> (r: Option<AckSample>)
        requires
            old(self)@.next_round_threshold + bytes <= u64::MAX,
            old(self)@.round_cnt < u32::MAX,
        ensures
            (final(self)@, r) == ack_start_outcome(old(self)@, now, sent, bytes, latest_rtt),
            keeps_window_laws(old(self)@, final(self)@),
            ({
                let b = ack_bookkeeping(old(self)@, now, sent, bytes, latest_rtt);
                let standing = b.rtt_standing.min_rtt;
                let minimum = b.rtt_min.min_rtt;
                if standing < minimum {
                    &&& r is None
                    &&& final(self)@ == b
                } else {
                    let delay = standing - minimum;
                    let calm = delay_is_minimal(b, delay);
                    &&& r == Some(AckSample {
                        delay: delay as u64,
                        rtt_standing: standing,
                        entered_delay_mode: calm && b.mode != CopaMode::DelayMode,
                    })
                    &&& final(self)@ == if calm {
                        CopaView { t_last_delay_min: now, mode: CopaMode::DelayMode, ..b }
                    } else {
                        b
                    }
                }
            }),
    {
        let total_acked = self.next_round_threshold + bytes;
        if total_acked >= self.next_round_threshold {
            self.round_cnt = self.round_cnt + 1;
            self.next_round_threshold = total_acked;
            self.round_start = true;
        } else {
            self.round_start = false;
        }

        if let Some(recovery_start_time) = self.recovery_start_time {
            if sent > recovery_start_time {
                self.recovery_start_time = None;
            }
        }

        self.rtt_min.update(now, latest_rtt);
        self.rtt_standing.update(now, latest_rtt);
        self.rtt_max.update(self.round_cnt, latest_rtt);

        let rtt_standing = self.rtt_standing.get();
        let rtt_min = self.rtt_min.get();
        if rtt_standing < rtt_min {
            return None;
        }
        let delay = rtt_standing - rtt_min;

        let rtt_max = self.rtt_max.get();
        assert(rtt_max >= latest_rtt && rtt_min <= latest_rtt);
        let mut entered_delay_mode = false;
        if delay <= (rtt_max - rtt_min) / 10 {
            self.t_last_delay_min = now;
            if self.mode != CopaMode::DelayMode {
                self.mode = CopaMode::DelayMode;
                entered_delay_mode = true;
            }
        }
        Some(AckSample { delay, rtt_standing, entered_delay_mode })
    }

    /// The slow-start step of an ACK of `bytes`, given whether the current
    /// rate is above Copa's target rate. Out of slow start nothing changes.
    /// In slow start a rate above the target ends slow start; otherwise the
    /// window grows (doubled when the ACK covers more than the window, else
    /// by the ACKed bytes), the pacing rate follows, and the ACK is done:
    /// the result says whether it is.
    pub fn on_ack_slow_start(&mut self, bytes: u64, rate_above_target: bool) -> (done: bool)
        requires
            old(self)@.in_slow_start && !rate_above_target ==> {
                let grown = slow_start_growth(old(self)@.cwnd_bytes, bytes);
                &&& grown <= u64::MAX
                &&& pacing_defined(grown as u64, old(self)@.rtt_standing.min_rtt, old(self)@.current_mtu)
            },
        ensures
            (final(self)@, done) == slow_start_outcome(old(self)@, bytes, rate_above_target),
            keeps_window_laws(old(self)@, final(self)@),
            ({
                let s = old(self)@;
                if !s.in_slow_start {
                    !done && final(self)@ == s
                } else if rate_above_target {
                    !done && final(self)@ == (CopaView { in_slow_start: false, ..s })
                } else {
                    let grown = slow_start_growth(s.cwnd_bytes, bytes) as u64;
                    &&& done
                    &&& final(self)@ == (CopaView {
                        cwnd_bytes: grown,
                        pacing_rate: spec_pacing_rate(grown, s.rtt_standing.min_rtt, s.current_mtu),
                        ..s
                    })
                }
            }),
    {
        if self.in_slow_start {
            if rate_above_target {
                self.in_slow_start = false;
            } else {
                if bytes > self.cwnd_bytes {
                    self.cwnd_bytes = self.cwnd_bytes * 2;
                } else {
                    self.cwnd_bytes = self.cwnd_bytes + bytes;
                }
                self.set_pacing_rate();
                return true;
            }
        }
        false
    }

    /// The round step of an ACK at `now`, with the smoothed RTT `srtt` in
    /// milliseconds: at the start of a round Copa turns competitive once no
    /// minimal delay has been seen for five smoothed RTTs, notes the direction
    /// in which the window moved since the last round, and counts how many
    /// rounds in a row it held. The result says what the velocity must do
    /// (`None` when no round starts).
    pub fn on_ack_round(&mut self, now: u64, srtt: u64) -> (r: Option<RoundUpdate>)
        requires
            5 * srtt <= u64::MAX,
            round_direction_holds(old(self)@) ==> old(self)@.same_dir_cnt < u32::MAX,
        ensures
            (final(self)@, r) == round_outcome(old(self)@, now, srtt),
            keeps_window_laws(old(self)@, final(self)@),
            ({
                let s = old(self)@;
                if !s.round_start {
                    r is None && final(self)@ == s
                } else {
                    let turns_competitive = s.mode != CopaMode::CompetitiveMode
                        && spec_elapsed_millis(now, s.t_last_delay_min) >= 5 * srtt;
                    let mode = if turns_competitive { CopaMode::CompetitiveMode } else { s.mode };
                    let new_dir = if s.cwnd_bytes > s.last_round_cwnd_bytes {
                        CopaDirection::Up
                    } else {
                        CopaDirection::Down
                    };
                    let reset = new_dir != s.curr_dir;
                    let cnt: u32 = if reset { 0 } else { (s.same_dir_cnt + 1) as u32 };
                    &&& r == Some(RoundUpdate { reset_v: reset, double_v: cnt > 3 })
                    &&& final(self)@ == (CopaView {
                        mode: mode,
                        last_round_cwnd_bytes: s.cwnd_bytes,
                        same_dir_cnt: cnt,
                        prev_dir: s.curr_dir,
                        curr_dir: new_dir,
                        ..s
                    })
                }
            }),
    {
        if self.round_start && self.mode != CopaMode::CompetitiveMode
            && elapsed_millis(now, self.t_last_delay_min) >= 5 * srtt {
            self.mode = CopaMode::CompetitiveMode;
        }
        if self.round_start {
            let new_dir = if self.cwnd_bytes > self.last_round_cwnd_bytes {
                CopaDirection::Up
            } else {
                CopaDirection::Down
            };
            self.last_round_cwnd_bytes = self.cwnd_bytes;
            let reset_v = new_dir != self.curr_dir;
            if reset_v {
                self.same_dir_cnt = 0;
            } else {
                self.same_dir_cnt = self.same_dir_cnt + 1;
            }
            self.prev_dir = self.curr_dir;
            self.curr_dir = new_dir;
            Some(RoundUpdate { reset_v, double_v: self.same_dir_cnt > 3 })
        } else {
            None
        }
    }

    /// The last step of an ACK: adds `numerator_bytes` of credit (taken away
    /// when the rate is above the target) to the accumulated adjustment,
    /// turns each whole window of credit into one MTU of window growth or
    /// shrinkage, keeps the window at four MTUs at least, and updates the
    /// pacing rate.
    pub fn on_ack_adjust(&mut self, rate_above_target: bool, numerator_bytes: u64)
        requires
            adjust_defined(old(self)@, rate_above_target, numerator_bytes),
        ensures
            final(self)@ == adjust_outcome(old(self)@, rate_above_target, numerator_bytes),
            keeps_window_laws(old(self)@, final(self)@),
            ({
                let s = old(self)@;
                let acc = s.cwnd_adjustment_accumulated + aiad_credit(rate_above_target, numerator_bytes);
                let floor = (4 * s.current_mtu) as u64;
                let cwnd = max_u64(adjust_window(s, acc), floor);
                final(self)@ == (CopaView {
                    cwnd_adjustment_accumulated: adjust_remainder(s, acc),
                    cwnd_bytes: cwnd,
                    pacing_rate: spec_pacing_rate(cwnd, s.rtt_standing.min_rtt, s.current_mtu),
                    ..s
                })
            }),
    {
        let numerator = numerator_bytes as i64;
        let credit: i64 = if rate_above_target { -numerator } else { numerator };
        self.cwnd_adjustment_accumulated = self.cwnd_adjustment_accumulated + credit;
        let acc = self.cwnd_adjustment_accumulated;
        let cw = self.cwnd_bytes as i64;
        let mtu = self.current_mtu as i64;
        if acc > 0 && acc >= cw {
            let d = acc / cw;
            assert(d * cw <= acc) by (nonlinear_arith)
                requires d as int == (acc as int) / (cw as int), acc > 0, cw > 0;
            self.cwnd_adjustment_accumulated = acc - d * cw;
            self.cwnd_bytes = self.cwnd_bytes + (d * mtu) as u64;
        } else if acc < 0 && acc <= -cw {
            let d = -acc / cw;
            assert(d * cw <= -acc) by (nonlinear_arith)
                requires d as int == (-acc) / (cw as int), -acc > 0, cw > 0;
            self.cwnd_adjustment_accumulated = acc + d * cw;
            let d = d * mtu;
            if d <= cw {
                self.cwnd_bytes = self.cwnd_bytes - d as u64;
            } else {
                self.cwnd_bytes = 0;
            }
        }
        proof {
            let s0 = old(self)@;
            if window_floor_holds(s0) && s0.current_mtu == 0 {
                lemma_adjust_keeps_window_positive(
                    s0,
                    s0.cwnd_adjustment_accumulated + aiad_credit(rate_above_target, numerator_bytes),
                );
            }
        }
        let floor = 4 * self.current_mtu;
        if self.cwnd_bytes < floor {
            self.cwnd_bytes = floor;
        }
        self.set_pacing_rate();
    }

    /// A loss or congestion signal for a packet sent at `sent_time`, at
    /// `now`. A packet sent before the current recovery period began is
    /// ignored (`None`, nothing changes). Otherwise a recovery period starts
    /// now; persistent congestion also restarts the filters (the standing
    /// one over half an MTU's worth of milliseconds), the direction tracking
    /// and slow start, returns to delay mode, and drops the window to four
    /// MTUs. The result says what `delta` and `v` must do.
    pub fn on_congestion_event(&mut self, sent_time: u64, is_persistent: bool, now: u64)
        -> (r: Option<CongestionReaction>)
        requires
            congestion_defined(old(self)@, sent_time, is_persistent),
        ensures
            keeps_window_laws(old(self)@, final(self)@),
            match congestion_outcome(old(self)@, sent_time, is_persistent, now) {
                Some((next, reaction)) => final(self)@ == next && r == Some(reaction),
                None => final(self)@ == old(self)@ && r is None,
            },
    {
        if let Some(recovery_start_time) = self.recovery_start_time {
            if sent_time < recovery_start_time {
                return None;
            }
        }
        self.recovery_start_time = Some(now);
        let widen_delta = self.mode == CopaMode::CompetitiveMode;
        if is_persistent {
            self.rtt_min = WinFilterMin::new(RTT_MIN_WINDOW_MILLIS, now);
            self.rtt_max = WinFilterMax::new();
            self.rtt_standing = WinFilterMin::new(standing_window(self.current_mtu), now);
            self.curr_dir = CopaDirection::Undef;
            self.prev_dir = CopaDirection::Undef;
            self.same_dir_cnt = 0;
            self.mode = CopaMode::DelayMode;
            self.t_last_delay_min = now;
            self.in_slow_start = true;
            self.cwnd_adjustment_accumulated = 0;
            self.cwnd_bytes = 4 * self.current_mtu;
            self.set_pacing_rate();
        }
        Some(CongestionReaction { widen_delta, reset_rates: is_persistent })
    }

    /// A new path MTU: the window grows to four MTUs if it is smaller, and
    /// the pacing rate follows.
    pub fn on_mtu_update(&mut self, new_mtu: u64)
        requires
            4 * new_mtu <= u64::MAX,
            pacing_defined(
                max_u64(old(self)@.cwnd_bytes, (4 * new_mtu) as u64),
                old(self)@.rtt_standing.min_rtt,
                new_mtu,
            ),
        ensures
            final(self)@ == mtu_update_outcome(old(self)@, new_mtu),
            keeps_window_laws(old(self)@, final(self)@),
            ({
                let s = old(self)@;
                let cwnd = max_u64(s.cwnd_bytes, (4 * new_mtu) as u64);
                final(self)@ == (CopaView {
                    current_mtu: new_mtu,
                    cwnd_bytes: cwnd,
                    pacing_rate: spec_pacing_rate(cwnd, s.rtt_standing.min_rtt, new_mtu),
                    ..s
                })
            }),
    {
        self.current_mtu = new_mtu;
        let floor = 4 * new_mtu;
        if self.cwnd_bytes < floor {
            self.cwnd_bytes = floor;
        }
        self.set_pacing_rate();
    }

    /// Whether [`Copa::on_ack_start`] accepts an ACK of `bytes`.
    pub fn ack_start_is_defined(&self, bytes: u64) -> (r: bool)
        ensures
            r == (self@.next_round_threshold + bytes <= u64::MAX && self@.round_cnt < u32::MAX),
    {
        bytes <= u64::MAX - self.next_round_threshold && self.round_cnt < u32::MAX
    }

    /// Whether [`Copa::on_ack_slow_start`] accepts an ACK of `bytes` with the
    /// given rate comparison.
    pub fn slow_start_is_defined(&self, bytes: u64, rate_above_target: bool) -> (r: bool)
        ensures
            r == (self@.in_slow_start && !rate_above_target ==> {
                let grown = slow_start_growth(self@.cwnd_bytes, bytes);
                &&& grown <= u64::MAX
                &&& pacing_defined(grown as u64, self@.rtt_standing.min_rtt, self@.current_mtu)
            }),
    {
        if !self.in_slow_start || rate_above_target {
            return true;
        }
        let grown: u128 = if bytes > self.cwnd_bytes {
            2 * (self.cwnd_bytes as u128)
        } else {
            self.cwnd_bytes as u128 + bytes as u128
        };
        if grown > u64::MAX as u128 {
            return false;
        }
        pacing_is_defined(grown as u64, self.rtt_standing.get(), self.current_mtu)
    }

    /// Whether [`Copa::on_ack_round`] accepts the smoothed RTT `srtt`.
    pub fn round_is_defined(&self, srtt: u64) -> (r: bool)
        ensures
            r == (5 * srtt <= u64::MAX
                && (round_direction_holds(self@) ==> self@.same_dir_cnt < u32::MAX)),
    {
        let new_dir = if self.cwnd_bytes > self.last_round_cwnd_bytes {
            CopaDirection::Up
        } else {
            CopaDirection::Down
        };
        let holds = self.round_start && new_dir == self.curr_dir;
        srtt <= u64::MAX / 5 && (!holds || self.same_dir_cnt < u32::MAX)
    }

    /// Whether [`Copa::on_ack_adjust`] accepts the given rate comparison and
    /// credit.
    pub fn adjust_is_defined(&self, rate_above_target: bool, numerator_bytes: u64) -> (r: bool)
        ensures
            r == adjust_defined(self@, rate_above_target, numerator_bytes),
    {
        let n = numerator_bytes as i64;
        if rate_above_target && n == i64::MIN {
            return false;
        }
        let credit: i128 = if rate_above_target { -(n as i128) } else { n as i128 };
        let acc: i128 = self.cwnd_adjustment_accumulated as i128 + credit;
        if acc < i64::MIN as i128 || acc > i64::MAX as i128 {
            return false;
        }
        let cw = self.cwnd_bytes as i128;
        let mtu = self.current_mtu as i128;
        if cw > i64::MAX as i128 || mtu > i64::MAX as i128 {
            return false;
        }
        if cw == 0 && acc != 0 {
            return false;
        }
        let adjusted: i128;
        if acc > 0 && acc >= cw && cw > 0 {
            let d = acc / cw;
            assert(0 <= d <= acc) by (nonlinear_arith)
                requires d as int == (acc as int) / (cw as int), acc > 0, cw > 0;
            assert(d * mtu <= d * (i64::MAX as int)) by (nonlinear_arith)
                requires 0 <= d, 0 <= mtu <= i64::MAX;
            assert(d * (i64::MAX as int) <= (i64::MAX as int) * (i64::MAX as int)) by (nonlinear_arith)
                requires 0 <= d <= i64::MAX;
            let dm = d * mtu;
            if dm > i64::MAX as i128 || cw + dm > u64::MAX as i128 {
                return false;
            }
            adjusted = cw + dm;
        } else if acc < 0 && acc <= -cw && cw > 0 {
            if acc == i64::MIN as i128 {
                return false;
            }
            let d = (-acc) / cw;
            assert(0 <= d <= -acc) by (nonlinear_arith)
                requires d as int == (-acc as int) / (cw as int), -acc > 0, cw > 0;
            assert(d * mtu <= d * (i64::MAX as int)) by (nonlinear_arith)
                requires 0 <= d, 0 <= mtu <= i64::MAX;
            assert(d * (i64::MAX as int) <= (i64::MAX as int) * (i64::MAX as int)) by (nonlinear_arith)
                requires 0 <= d <= i64::MAX;
            let dm = d * mtu;
            if dm > i64::MAX as i128 {
                return false;
            }
            adjusted = if dm <= cw { cw - dm } else { 0 };
        } else {
            adjusted = cw;
        }
        let floor = 4 * mtu;
        if floor > u64::MAX as i128 {
            return false;
        }
        let cwnd = if adjusted >= floor { adjusted as u64 } else { floor as u64 };
        pacing_is_defined(cwnd, self.rtt_standing.get(), self.current_mtu)
    }

    /// Whether [`Copa::on_congestion_event`] accepts a signal for a packet
    /// sent at `sent_time`, of the given persistence.
    pub fn congestion_is_defined(&self, sent_time: u64, is_persistent: bool) -> (r: bool)
        ensures
            r == congestion_defined(self@, sent_time, is_persistent),
    {
        if !is_persistent {
            return true;
        }
        if let Some(start) = self.recovery_start_time {
            if sent_time < start {
                return true;
            }
        }
        if self.current_mtu > u64::MAX / 4 {
            return false;
        }
        pacing_is_defined(4 * self.current_mtu, u64::MAX, self.current_mtu)
    }

    /// Whether [`Copa::on_mtu_update`] accepts `new_mtu`.
    pub fn mtu_update_is_defined(&self, new_mtu: u64) -> (r: bool)
        ensures
            r == (4 * new_mtu <= u64::MAX && pacing_defined(
                max_u64(self@.cwnd_bytes, (4 * new_mtu) as u64),
                self@.rtt_standing.min_rtt,
                new_mtu,
            )),
    {
        if new_mtu > u64::MAX / 4 {
            return false;
        }
        let floor = 4 * new_mtu;
        let cwnd = if self.cwnd_bytes >= floor { self.cwnd_bytes } else { floor };
        pacing_is_defined(cwnd, self.rtt_standing.get(), new_mtu)
    }

    /// The congestion window in bytes.
    pub fn window(&self) -> (r: u64)
        ensures
            r == self@.cwnd_bytes,
    {
        self.cwnd_bytes
    }

    /// The initial congestion window in bytes.
    pub fn initial_window(&self) -> (r: u64)
        ensures
            r == self@.init_cwnd_bytes,
    {
        self.init_cwnd_bytes
    }

    /// The pacing window: the congestion window.
    pub fn pacing_window(&self) -> (r: u64)
        ensures
            r == self@.cwnd_bytes,
    {
        self.cwnd_bytes
    }

    /// The path MTU in bytes.
    pub fn current_mtu(&self) -> (r: u64)
        ensures
            r == self@.current_mtu,
    {
        self.current_mtu
    }

    /// The pacing rate.
    pub fn pacing_rate(&self) -> (r: u64)
        ensures
            r == self@.pacing_rate,
    {
        self.pacing_rate
    }

    /// Whether the controller is in competitive mode.
    pub fn is_competitive(&self) -> (r: bool)
        ensures
            r == (self@.mode == CopaMode::CompetitiveMode),
    {
        self.mode == CopaMode::CompetitiveMode
    }

    /// Whether the controller is in slow start.
    pub fn in_slow_start(&self) -> (r: bool)
        ensures
            r == self@.in_slow_start,
    {
        self.in_slow_start
    }

    /// The start of the current recovery period, if any.
    pub fn recovery_start_time(&self) -> (r: Option<u64>)
        ensures
            r == self@.recovery_start_time,
    {
        self.recovery_start_time
    }

    /// The accumulated window-adjustment credit, in bytes.
    pub fn cwnd_adjustment_accumulated(&self) -> (r: i64)
        ensures
            r == self@.cwnd_adjustment_accumulated,
    {
        self.cwnd_adjustment_accumulated
    }

    /// The number of rounds counted so far.
    pub fn round_count(&self) -> (r: u32)
        ensures
            r == self@.round_cnt,
    {
        self.round_cnt
    }
}

} // verus!
