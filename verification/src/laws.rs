//! Laws of the rate limiter, stated over the specification model of the
//! hook evaluator and proved once for all inputs.

use vstd::prelude::*;
use crate::rate::{Info, BPS, NSEC_PER_SEC};
use crate::hook::{
    Action, base_departure, lemma_delay_bounds, resets_window, spec_action, spec_candidate,
    spec_delay, spec_departure, spec_new_state, valid_now, valid_state,
};

verus! {

/// One packet arrival: its byte length, its clamped timestamp hint, and
/// the time it is processed.
#[derive(Debug, Clone, Copy, PartialEq, Eq, Structural)]
pub struct Arrival {
    pub length: u32,
    pub hint: u64,
    pub now: u64,
}

/// The state after processing each arrival in turn.
pub open spec fn run(state: Info, arrivals: Seq<Arrival>) -> Info
    decreases arrivals.len(),
{
    if arrivals.len() == 0 {
        state
    } else {
        let a = arrivals.first();
        run(spec_new_state(state, a.length, a.hint, a.now), arrivals.drop_first())
    }
}

/// Total nanosecond cost of the arrivals that pass.
pub open spec fn passed_cost(state: Info, arrivals: Seq<Arrival>) -> int
    decreases arrivals.len(),
{
    if arrivals.len() == 0 {
        0
    } else {
        let a = arrivals.first();
        (if spec_action(state, a.length, a.hint, a.now) == Action::Pass {
            spec_delay(a.length)
        } else {
            0
        }) + passed_cost(spec_new_state(state, a.length, a.hint, a.now), arrivals.drop_first())
    }
}

/// Total bytes of the arrivals that pass: the observed throughput.
pub open spec fn passed_bytes(state: Info, arrivals: Seq<Arrival>) -> int
    decreases arrivals.len(),
{
    if arrivals.len() == 0 {
        0
    } else {
        let a = arrivals.first();
        (if spec_action(state, a.length, a.hint, a.now) == Action::Pass {
            a.length as int
        } else {
            0
        }) + passed_bytes(spec_new_state(state, a.length, a.hint, a.now), arrivals.drop_first())
    }
}

/// A run in which no reset fires: every hint is clamped, every packet is
/// within the per-second budget, time never goes backwards, and no gap
/// between consecutive packets exceeds one second.
pub open spec fn reset_free_trace(state: Info, arrivals: Seq<Arrival>) -> bool
    decreases arrivals.len(),
{
    if arrivals.len() == 0 {
        true
    } else {
        let a = arrivals.first();
        &&& a.hint <= a.now
        &&& a.length <= BPS
        &&& valid_now(a.now)
        &&& state.previous <= a.now
        &&& a.now - state.previous <= NSEC_PER_SEC
        &&& reset_free_trace(spec_new_state(state, a.length, a.hint, a.now), arrivals.drop_first())
    }
}

/// Scaled back to bytes, a packet's cost accounts for its whole length
/// up to the division's rounding:
/// `length * NSEC_PER_SEC < BPS * (cost + 1)`.
pub proof fn lemma_cost_accounts_for_bytes(length: u32)
    ensures
        spec_delay(length) >= 0,
        (length as int * NSEC_PER_SEC as int) < (BPS as int) * (spec_delay(length) + 1),
{
    lemma_delay_bounds(length);
    assert((length as int * NSEC_PER_SEC as int) < (BPS as int) * ((length as int
        * NSEC_PER_SEC as int) / (BPS as int) + 1)) by (nonlinear_arith)
        requires
            length as int >= 0,
            NSEC_PER_SEC as int > 0,
            BPS as int > 0,
    ;
}

/// Idempotence of a due packet: whenever the candidate departure is at
/// or before the clamped hint, the packet passes and the stored
/// departure is reset to the hint exactly, whatever the prior state.
pub proof fn lemma_due_packet_resets_to_hint(state: Info, length: u32, hint: u64, now: u64)
    requires
        length <= BPS,
        spec_candidate(state, length, hint, now) <= hint,
    ensures
        spec_action(state, length, hint, now) == Action::Pass,
        spec_departure(state, length, hint, now) == hint,
{
}

/// Monotonicity: absent a window reset, and for a packet within the
/// per-second budget, the stored departure never decreases.
pub proof fn lemma_departure_monotonic(state: Info, length: u32, hint: u64, now: u64)
    requires
        length <= BPS,
        !resets_window(state, now),
    ensures
        spec_departure(state, length, hint, now) >= state.t_last,
{
    lemma_delay_bounds(length);
}

/// Boundary: a zero-length packet costs nothing and passes, provided no
/// prior backlog leaves its (cost-free) candidate strictly between the
/// hint and `now`, nor a second or more past `now`.
pub proof fn lemma_zero_length_passes(state: Info, hint: u64, now: u64)
    requires
        hint <= now,
        base_departure(state, hint, now) <= hint || base_departure(state, hint, now) > now,
        base_departure(state, hint, now) - now < NSEC_PER_SEC,
    ensures
        spec_delay(0) == 0,
        spec_action(state, 0, hint, now) == Action::Pass,
{
}

/// Within a burst — no idle reset, the hint clamped up to `now`, the
/// packet within the per-second budget — a packet passes exactly when
/// its candidate departure lies less than one second past `now`, and a
/// dropped packet never advances the stored departure.
pub proof fn lemma_burst_pass_iff_within_backlog(state: Info, length: u32, now: u64)
    requires
        length <= BPS,
        !resets_window(state, now),
    ensures
        spec_action(state, length, now, now) == Action::Pass <==> spec_candidate(
            state,
            length,
            now,
            now,
        ) - now < NSEC_PER_SEC,
        spec_action(state, length, now, now) == Action::Drop ==> spec_departure(
            state,
            length,
            now,
            now,
        ) == state.t_last,
{
}

/// One step of the scheduler, under reset-free conditions: the stored
/// departure never decreases, a pass advances it by at least the
/// packet's cost, and it stays within one second of the current time.
proof fn lemma_step(state: Info, length: u32, hint: u64, now: u64)
    requires
        hint <= now,
        length <= BPS,
        state.previous <= now,
        now - state.previous <= NSEC_PER_SEC,
        valid_state(state),
        valid_now(now),
    ensures
        spec_new_state(state, length, hint, now).t_last == spec_departure(state, length, hint, now),
        spec_new_state(state, length, hint, now).previous == now,
        valid_state(spec_new_state(state, length, hint, now)),
        spec_departure(state, length, hint, now) >= state.t_last,
        spec_action(state, length, hint, now) == Action::Pass ==> spec_departure(
            state,
            length,
            hint,
            now,
        ) >= state.t_last + spec_delay(length),
        state.t_last <= state.previous + NSEC_PER_SEC ==> spec_departure(state, length, hint, now)
            <= now + NSEC_PER_SEC,
{
    lemma_delay_bounds(length);
}

/// Throughput cap: over any reset-free run, the total nanosecond cost
/// of the packets that pass is no more than the advance of the stored
/// departure; and the departure itself never runs more than one second
/// ahead of the clock.  Together: the cost of what passes within a
/// window never exceeds the window's length plus one second of
/// overshoot, which is the rate cap up to one second's burst.
pub proof fn lemma_throughput_cap(state: Info, arrivals: Seq<Arrival>)
    requires
        reset_free_trace(state, arrivals),
        valid_state(state),
    ensures
        passed_cost(state, arrivals) >= 0,
        run(state, arrivals).t_last >= state.t_last + passed_cost(state, arrivals),
        arrivals.len() > 0 && state.t_last <= state.previous + NSEC_PER_SEC ==> run(
            state,
            arrivals,
        ).t_last <= arrivals.last().now + NSEC_PER_SEC,
    decreases arrivals.len(),
{
    if arrivals.len() > 0 {
        let a = arrivals.first();
        let s1 = spec_new_state(state, a.length, a.hint, a.now);
        lemma_step(state, a.length, a.hint, a.now);
        lemma_delay_bounds(a.length);
        lemma_throughput_cap(s1, arrivals.drop_first());
        if arrivals.len() > 1 {
            assert(arrivals.drop_first().last() == arrivals.last());
        }
    }
}

/// The bytes that pass are paid for by their nanosecond cost, up to
/// one division rounding per packet:
/// `passed_bytes * NSEC_PER_SEC <= BPS * (passed_cost + count)`.
pub proof fn lemma_passed_bytes_paid_for(state: Info, arrivals: Seq<Arrival>)
    requires
        reset_free_trace(state, arrivals),
        valid_state(state),
    ensures
        passed_bytes(state, arrivals) >= 0,
        (passed_bytes(state, arrivals) * NSEC_PER_SEC as int) <= (BPS as int) * (passed_cost(
            state,
            arrivals,
        ) + arrivals.len()),
    decreases arrivals.len(),
{
    if arrivals.len() > 0 {
        let a = arrivals.first();
        let s1 = spec_new_state(state, a.length, a.hint, a.now);
        lemma_step(state, a.length, a.hint, a.now);
        lemma_cost_accounts_for_bytes(a.length);
        lemma_passed_bytes_paid_for(s1, arrivals.drop_first());
    }
}

/// The throughput cap in the configured unit, bytes: over any
/// reset-free run that starts within one second of its own last
/// activity, the bytes that pass never exceed the cap applied to the
/// elapsed time plus one second of tolerated burst, up to one division
/// rounding per packet.
pub proof fn lemma_throughput_cap_bytes(state: Info, arrivals: Seq<Arrival>)
    requires
        reset_free_trace(state, arrivals),
        valid_state(state),
        arrivals.len() > 0,
        state.t_last <= state.previous + NSEC_PER_SEC,
    ensures
        (passed_bytes(state, arrivals) * NSEC_PER_SEC as int) <= (BPS as int) * ((arrivals.last().now
            - state.t_last) + NSEC_PER_SEC as int + arrivals.len()),
{
    lemma_throughput_cap(state, arrivals);
    lemma_passed_bytes_paid_for(state, arrivals);
    let cost = passed_cost(state, arrivals);
    let budget = (arrivals.last().now - state.t_last) + NSEC_PER_SEC as int;
    assert(cost <= budget);
    assert((BPS as int) * (cost + arrivals.len()) <= (BPS as int) * (budget + arrivals.len()))
        by (nonlinear_arith)
        requires
            cost + arrivals.len() <= budget + arrivals.len(),
            BPS as int > 0,
    ;
}

} // verus!
