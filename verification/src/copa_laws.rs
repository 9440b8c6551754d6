//! What each step of the Copa window machine does, stated over its inputs
//! and results.

use vstd::prelude::*;
use crate::clock::spec_elapsed_millis;
use crate::copa::{
    CopaDirection, CopaMode, CopaView, ack_start_outcome, adjust_defined, adjust_outcome,
    aiad_credit, congestion_outcome, delay_is_minimal, half_mtu_window, mtu_update_outcome,
    lemma_half_mtu_window_fits, pacing_defined, round_outcome, slow_start_growth, slow_start_outcome, spec_pacing_rate,
};

verus! {

/// A congestion signal is ignored exactly when it is for a packet sent
/// before the current recovery period began. Otherwise a recovery period
/// starts at `now`; `delta` widens exactly when Copa was in competitive
/// mode, whether or not the congestion is persistent; `delta` and `v`
/// restart exactly on persistent congestion. An ordinary signal changes
/// nothing but the recovery start; a persistent one restarts slow start and
/// delay mode with a window of four MTUs and empty filters.
pub proof fn law_congestion_reaction(s: CopaView, sent_time: u64, is_persistent: bool, now: u64)
    ensures
        congestion_outcome(s, sent_time, is_persistent, now) is None <==> (s.recovery_start_time is Some
            && sent_time < s.recovery_start_time.unwrap()),
        congestion_outcome(s, sent_time, is_persistent, now) is Some ==> {
            let next = congestion_outcome(s, sent_time, is_persistent, now).unwrap().0;
            let reaction = congestion_outcome(s, sent_time, is_persistent, now).unwrap().1;
            &&& (reaction.widen_delta <==> s.mode == CopaMode::CompetitiveMode)
            &&& (reaction.reset_rates <==> is_persistent)
            &&& next.recovery_start_time == Some(now)
            &&& next.init_cwnd_bytes == s.init_cwnd_bytes
            &&& next.current_mtu == s.current_mtu
            &&& next.round_cnt == s.round_cnt
            &&& !is_persistent ==> next == (CopaView { recovery_start_time: Some(now), ..s })
            &&& is_persistent ==> {
                &&& 4 * s.current_mtu <= u64::MAX ==> next.cwnd_bytes == 4 * s.current_mtu
                &&& next.in_slow_start
                &&& next.mode == CopaMode::DelayMode
                &&& next.t_last_delay_min == now
                &&& next.curr_dir == CopaDirection::Undef
                &&& next.prev_dir == CopaDirection::Undef
                &&& next.same_dir_cnt == 0
                &&& next.cwnd_adjustment_accumulated == 0
                &&& next.rtt_min.min_rtt == u64::MAX
                &&& next.rtt_min.window_duration == 10_000
                &&& next.rtt_min.last_update_time == now
                &&& next.rtt_standing.min_rtt == u64::MAX
                &&& next.rtt_standing.window_duration == half_mtu_window(s.current_mtu)
                &&& next.rtt_standing.last_update_time == now
                &&& next.rtt_max.max_rtt == 0
                &&& next.rtt_max.last_round_count == 0
            }
        },
{
    lemma_half_mtu_window_fits(s.current_mtu);
}

/// Slow-start growth adds exactly the ACKed bytes when they do not exceed
/// the window, and doubles the window only when they do.
pub proof fn law_slow_start_growth(cwnd: u64, bytes: u64)
    ensures
        bytes <= cwnd ==> slow_start_growth(cwnd, bytes) == cwnd + bytes,
        bytes > cwnd ==> slow_start_growth(cwnd, bytes) == 2 * cwnd,
{
}

/// The slow-start step: out of slow start nothing changes and the ACK goes
/// on; a rate above the target ends slow start and leaves the window; any
/// other ACK grows the window (by the ACKed bytes, or doubles it when the
/// ACK covers more than the window), paces at the new window, stays in slow
/// start, and ends the ACK.
pub proof fn law_slow_start_step(s: CopaView, bytes: u64, rate_above_target: bool)
    requires
        s.cwnd_bytes + bytes <= u64::MAX,
        2 * s.cwnd_bytes <= u64::MAX,
    ensures
        ({
            let next = slow_start_outcome(s, bytes, rate_above_target).0;
            let done = slow_start_outcome(s, bytes, rate_above_target).1;
            &&& !s.in_slow_start ==> !done && next == s
            &&& s.in_slow_start && rate_above_target ==> {
                &&& !done
                &&& !next.in_slow_start
                &&& next.cwnd_bytes == s.cwnd_bytes
                &&& next == (CopaView { in_slow_start: false, ..s })
            }
            &&& s.in_slow_start && !rate_above_target ==> {
                &&& done
                &&& next.in_slow_start
                &&& bytes <= s.cwnd_bytes ==> next.cwnd_bytes == s.cwnd_bytes + bytes
                &&& bytes > s.cwnd_bytes ==> next.cwnd_bytes == 2 * s.cwnd_bytes
                &&& next.cwnd_bytes >= s.cwnd_bytes
                &&& next.pacing_rate == spec_pacing_rate(next.cwnd_bytes, s.rtt_standing.min_rtt, s.current_mtu)
                &&& next.current_mtu == s.current_mtu
                &&& next.cwnd_adjustment_accumulated == s.cwnd_adjustment_accumulated
                &&& next.mode == s.mode
            }
        }),
{
}

/// A queueing delay counts as minimal exactly when it is within a tenth of
/// the round's RTT spread.
pub proof fn law_delay_is_minimal(b: CopaView, delay: int)
    requires
        0 <= delay,
        b.rtt_min.min_rtt <= b.rtt_max.max_rtt,
    ensures
        delay_is_minimal(b, delay) <==> 10 * delay <= b.rtt_max.max_rtt - b.rtt_min.min_rtt,
{
    let spread = b.rtt_max.max_rtt - b.rtt_min.min_rtt;
    assert(delay <= spread / 10 <==> 10 * delay <= spread) by (nonlinear_arith)
        requires spread >= 0, delay >= 0;
}

/// The first step of an ACK counts a round and the ACKed bytes, ends a
/// recovery period that the packet postdates (and only then), feeds the
/// sample to the three filters, and leaves the window, the MTU, slow start
/// and the adjustment alone. It stops (`None`) exactly when the standing RTT
/// is below the minimum RTT; otherwise it reports the standing RTT and the
/// queueing delay (standing minus minimum), and a delay within a tenth of
/// the round's RTT spread marks the time and puts Copa in delay mode,
/// reporting a change of mode; a larger delay changes neither.
pub proof fn law_ack_start(s: CopaView, now: u64, sent: u64, bytes: u64, latest_rtt: u64)
    requires
        s.next_round_threshold + bytes <= u64::MAX,
        s.round_cnt < u32::MAX,
    ensures
        ({
            let next = ack_start_outcome(s, now, sent, bytes, latest_rtt).0;
            let r = ack_start_outcome(s, now, sent, bytes, latest_rtt).1;
            let standing = next.rtt_standing.min_rtt;
            let minimum = next.rtt_min.min_rtt;
            let maximum = next.rtt_max.max_rtt;
            &&& next.round_cnt == s.round_cnt + 1
            &&& next.next_round_threshold == s.next_round_threshold + bytes
            &&& next.round_start
            &&& next.rtt_max.last_round_count == s.round_cnt + 1
            &&& next.cwnd_bytes == s.cwnd_bytes
            &&& next.init_cwnd_bytes == s.init_cwnd_bytes
            &&& next.current_mtu == s.current_mtu
            &&& next.pacing_rate == s.pacing_rate
            &&& next.in_slow_start == s.in_slow_start
            &&& next.cwnd_adjustment_accumulated == s.cwnd_adjustment_accumulated
            &&& next.same_dir_cnt == s.same_dir_cnt
            &&& minimum <= latest_rtt
            &&& standing <= latest_rtt
            &&& maximum >= latest_rtt
            &&& (s.recovery_start_time is Some && sent > s.recovery_start_time.unwrap())
                ==> next.recovery_start_time is None
            &&& (s.recovery_start_time is Some && sent <= s.recovery_start_time.unwrap())
                ==> next.recovery_start_time == s.recovery_start_time
            &&& s.recovery_start_time is None ==> next.recovery_start_time is None
            &&& (r is None <==> standing < minimum)
            &&& r is None ==> next.mode == s.mode && next.t_last_delay_min == s.t_last_delay_min
            &&& r matches Some(a) ==> {
                &&& a.rtt_standing == standing
                &&& a.delay == standing - minimum
                &&& 10 * a.delay <= maximum - minimum ==> {
                    &&& next.mode == CopaMode::DelayMode
                    &&& next.t_last_delay_min == now
                    &&& (a.entered_delay_mode <==> s.mode != CopaMode::DelayMode)
                }
                &&& 10 * a.delay > maximum - minimum ==> {
                    &&& next.mode == s.mode
                    &&& next.t_last_delay_min == s.t_last_delay_min
                    &&& !a.entered_delay_mode
                }
            }
        }),
{
    let next = ack_start_outcome(s, now, sent, bytes, latest_rtt).0;
    let r = ack_start_outcome(s, now, sent, bytes, latest_rtt).1;
    let standing = next.rtt_standing.min_rtt;
    let minimum = next.rtt_min.min_rtt;
    if standing >= minimum {
        law_delay_is_minimal(next, standing - minimum);
    }
}

/// The round step: without a round start nothing changes. At a round start
/// the direction is up exactly when the window grew since the last round
/// start, which becomes the last round's window; the velocity restarts
/// exactly when the direction changed, the count of rounds in the same
/// direction restarts then and otherwise grows by one, and the velocity
/// doubles exactly when the direction has held for four rounds or more. Copa
/// turns competitive once five smoothed RTTs (in milliseconds) have passed
/// without a minimal delay, and never leaves competitive mode here.
pub proof fn law_round_step(s: CopaView, now: u64, srtt: u64)
    requires
        s.same_dir_cnt < u32::MAX,
    ensures
        ({
            let next = round_outcome(s, now, srtt).0;
            let r = round_outcome(s, now, srtt).1;
            &&& !s.round_start ==> r is None && next == s
            &&& s.round_start ==> {
                let u = r.unwrap();
                &&& r is Some
                &&& (next.curr_dir == CopaDirection::Up <==> s.cwnd_bytes > s.last_round_cwnd_bytes)
                &&& next.curr_dir != CopaDirection::Undef
                &&& next.prev_dir == s.curr_dir
                &&& next.last_round_cwnd_bytes == s.cwnd_bytes
                &&& (u.reset_v <==> next.curr_dir != s.curr_dir)
                &&& u.reset_v ==> next.same_dir_cnt == 0
                &&& !u.reset_v ==> next.same_dir_cnt == s.same_dir_cnt + 1
                &&& (u.double_v <==> next.same_dir_cnt >= 4)
                &&& (next.mode == CopaMode::CompetitiveMode <==> (s.mode == CopaMode::CompetitiveMode
                    || spec_elapsed_millis(now, s.t_last_delay_min) >= 5 * srtt))
                &&& next.cwnd_bytes == s.cwnd_bytes
                &&& next.cwnd_adjustment_accumulated == s.cwnd_adjustment_accumulated
                &&& next.t_last_delay_min == s.t_last_delay_min
                &&& next.round_cnt == s.round_cnt
            }
        }),
{
}

/// The credit of an ACK is its numerator, taken away when the rate is above
/// the target.
pub proof fn law_aiad_credit(rate_above_target: bool, numerator_bytes: u64)
    requires
        numerator_bytes <= i64::MAX,
    ensures
        rate_above_target ==> aiad_credit(rate_above_target, numerator_bytes) == -numerator_bytes,
        !rate_above_target ==> aiad_credit(rate_above_target, numerator_bytes) == numerator_bytes,
{
}

/// The adjustment step adds the credit to the accumulated adjustment. While
/// the total stays within one window either way, the window keeps its size
/// (raised to four MTUs if below) and the total is kept. A total of at
/// least one window adds one MTU per whole window and keeps the rest; a
/// total of at most minus one window takes one MTU per whole window (down
/// to zero) and keeps the rest. The window never ends below four MTUs, and
/// the pacing rate follows it.
pub proof fn law_adjust_step(s: CopaView, rate_above_target: bool, numerator_bytes: u64)
    requires
        adjust_defined(s, rate_above_target, numerator_bytes),
    ensures
        ({
            let acc = s.cwnd_adjustment_accumulated + aiad_credit(rate_above_target, numerator_bytes);
            let next = adjust_outcome(s, rate_above_target, numerator_bytes);
            let cw = s.cwnd_bytes as int;
            let mtu = s.current_mtu as int;
            let floor = 4 * mtu;
            &&& next.cwnd_bytes >= floor
            &&& next.current_mtu == s.current_mtu
            &&& next.init_cwnd_bytes == s.init_cwnd_bytes
            &&& next.in_slow_start == s.in_slow_start
            &&& next.mode == s.mode
            &&& next.pacing_rate == spec_pacing_rate(next.cwnd_bytes, s.rtt_standing.min_rtt, s.current_mtu)
            &&& (-cw < acc < cw) ==> {
                &&& next.cwnd_adjustment_accumulated == acc
                &&& next.cwnd_bytes == if cw >= floor { cw } else { floor }
            }
            &&& (cw > 0 && acc >= cw) ==> {
                let grown = cw + (acc / cw) * mtu;
                &&& next.cwnd_adjustment_accumulated == acc % cw
                &&& next.cwnd_bytes == if grown >= floor { grown } else { floor }
            }
            &&& (cw > 0 && acc <= -cw) ==> {
                let taken = ((-acc) / cw) * mtu;
                let shrunk = if taken <= cw { cw - taken } else { 0 };
                &&& next.cwnd_adjustment_accumulated == -((-acc) % cw)
                &&& next.cwnd_bytes == if shrunk >= floor { shrunk } else { floor }
            }
        }),
{
    let acc = s.cwnd_adjustment_accumulated + aiad_credit(rate_above_target, numerator_bytes);
    let cw = s.cwnd_bytes as int;
    let mtu = s.current_mtu as int;
    if cw > 0 && acc >= cw {
        let d = acc / cw;
        vstd::arithmetic::div_mod::lemma_fundamental_div_mod(acc, cw);
        assert(d * cw == cw * d) by (nonlinear_arith);
        assert(d >= 0 && d * mtu >= 0) by (nonlinear_arith)
            requires d == acc / cw, cw > 0, acc > 0, mtu >= 0;
    } else if cw > 0 && acc <= -cw {
        let d = (-acc) / cw;
        vstd::arithmetic::div_mod::lemma_fundamental_div_mod(-acc, cw);
        assert(d * cw == cw * d) by (nonlinear_arith);
        assert(d >= 0 && d * mtu >= 0) by (nonlinear_arith)
            requires d == (-acc) / cw, cw > 0, -acc > 0, mtu >= 0;
    }
}

/// A new MTU replaces the old one; the window rises to four new MTUs if it
/// is smaller and is otherwise kept; the pacing rate follows; nothing else
/// changes.
pub proof fn law_mtu_update_step(s: CopaView, new_mtu: u64)
    requires
        4 * new_mtu <= u64::MAX,
    ensures
        ({
            let next = mtu_update_outcome(s, new_mtu);
            &&& next.current_mtu == new_mtu
            &&& next.cwnd_bytes == if s.cwnd_bytes >= 4 * new_mtu { s.cwnd_bytes as int } else { 4 * new_mtu }
            &&& next.pacing_rate == spec_pacing_rate(next.cwnd_bytes, s.rtt_standing.min_rtt, new_mtu)
            &&& next == (CopaView {
                current_mtu: new_mtu,
                cwnd_bytes: next.cwnd_bytes,
                pacing_rate: next.pacing_rate,
                ..s
            })
        }),
{
}

/// The pacing rate is twice the window, times a million, over the standing
/// RTT (over the MTU while no RTT sample is held), and never below one MTU.
pub proof fn law_pacing_rate(cwnd: u64, rtt_standing: u64, mtu: u64)
    requires
        pacing_defined(cwnd, rtt_standing, mtu),
    ensures
        ({
            let divisor = if rtt_standing == u64::MAX { mtu as int } else { rtt_standing as int };
            let rate = (2 * cwnd * 1_000_000) / divisor;
            spec_pacing_rate(cwnd, rtt_standing, mtu) == if rate >= mtu { rate } else { mtu as int }
        }),
{
    let divisor = if rtt_standing == u64::MAX { mtu as int } else { rtt_standing as int };
    let x = 2 * cwnd * 1_000_000;
    assert(x / divisor <= x) by (nonlinear_arith)
        requires x >= 0, divisor > 0;
}

} // verus!
