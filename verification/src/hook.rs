//! The directional hook evaluator: the per-packet rate-limiting decision.
//!
//! The algorithm is a single-entity leaky bucket realised as a virtual
//! departure-time scheduler.  Every packet is either passed or dropped
//! immediately; nothing is ever queued or reordered.  The decision and
//! the successor state are specified exactly by the `spec` functions
//! below, and `evaluate_packet` is proved to compute them.

use vstd::prelude::*;
use crate::rate::{Info, BPS, NSEC_PER_SEC};
use crate::store::{RateStore, CAPACITY};
use crate::telemetry::PacketLog;

verus! {

/// The enforcement decision for one packet.
#[derive(Debug, Clone, Copy, PartialEq, Eq, Structural)]
pub enum Action {
    Pass,
    Drop,
}

impl Action {
    /// The integer verdict consumed by the hook dispatcher:
    /// 1 allows the packet, 0 discards it.
    pub open spec fn spec_verdict(self) -> i32 {
        match self {
            Action::Pass => 1,
            Action::Drop => 0,
        }
    }

    pub fn verdict(self) -> (v: i32)
        ensures
            v == self.spec_verdict(),
    {
        match self {
            Action::Pass => 1,
            Action::Drop => 0,
        }
    }
}

/// An internal fault of the enforcement path, reported explicitly
/// rather than silently mapped to a default verdict.
#[derive(Debug, Clone, Copy, PartialEq, Eq, Structural)]
pub enum HookError {
    /// The state store is at capacity and the packet's entity is new.
    StateStoreFull,
}

/// A timestamp hint from the future cannot be trusted: it is clamped
/// to the current time.
pub open spec fn clamp_hint(tstamp: u64, now: u64) -> u64 {
    if tstamp > now {
        now
    } else {
        tstamp
    }
}

/// Nanoseconds this packet "costs" under the rate cap.
pub open spec fn spec_delay(length: u32) -> int {
    (length as int * NSEC_PER_SEC as int) / (BPS as int)
}

/// The idle-forgiveness window: a gap of more than one second since the
/// previous packet makes any accumulated backlog stale.
pub open spec fn resets_window(state: Info, now: u64) -> bool {
    now - state.previous > NSEC_PER_SEC
}

/// The departure time the packet is scheduled against: the stored one,
/// or the clamped hint after an idle gap of more than one second.
pub open spec fn base_departure(state: Info, hint: u64, now: u64) -> u64 {
    if resets_window(state, now) {
        hint
    } else {
        state.t_last
    }
}

/// The candidate departure time of this packet.
pub open spec fn spec_candidate(state: Info, length: u32, hint: u64, now: u64) -> int {
    base_departure(state, hint, now) + spec_delay(length)
}

/// The decision, evaluated in priority order: an oversize packet is
/// dropped outright; a packet already due passes; a projected backlog
/// of one second or more drops; a candidate slot already in the past
/// drops; otherwise the packet passes and consumes its slot.
pub open spec fn spec_action(state: Info, length: u32, hint: u64, now: u64) -> Action {
    if length > BPS {
        Action::Drop
    } else {
        let c = spec_candidate(state, length, hint, now);
        if c <= hint {
            Action::Pass
        } else if c - now >= NSEC_PER_SEC {
            Action::Drop
        } else if c <= now {
            Action::Drop
        } else {
            Action::Pass
        }
    }
}

/// The scheduled departure persisted after the decision.  Neither drop
/// for backlog nor drop for a slot already in the past advances it: a
/// dropped packet's cost is never charged to the entity.
pub open spec fn spec_departure(state: Info, length: u32, hint: u64, now: u64) -> int {
    if length > BPS {
        hint as int
    } else {
        let c = spec_candidate(state, length, hint, now);
        if c <= hint {
            hint as int
        } else if c - now >= NSEC_PER_SEC {
            base_departure(state, hint, now) as int
        } else if c <= now {
            base_departure(state, hint, now) as int
        } else {
            c
        }
    }
}

/// The diagnostic offset emitted with the decision: the magnitude of
/// the distance between the candidate departure and `now`, or the
/// packet length for an oversize drop.
pub open spec fn spec_offset(state: Info, length: u32, hint: u64, now: u64) -> int {
    if length > BPS {
        length as int
    } else {
        let c = spec_candidate(state, length, hint, now);
        if c >= now {
            c - now
        } else {
            now - c
        }
    }
}

/// The state persisted after the decision: the new scheduled departure,
/// and `now` as the time of the last packet seen.
pub open spec fn spec_new_state(state: Info, length: u32, hint: u64, now: u64) -> Info {
    Info { t_last: spec_departure(state, length, hint, now) as u64, previous: now }
}

/// Timestamps are kept two seconds clear of the top of the 64-bit
/// nanosecond range, so that a departure one second in the future and a
/// one-second packet cost never overflow.
pub open spec fn valid_now(now: u64) -> bool {
    now <= u64::MAX - 2 * NSEC_PER_SEC
}

/// A state fit to be evaluated again: its departure time leaves room
/// for one more second of cost.
pub open spec fn valid_state(state: Info) -> bool {
    state.t_last <= u64::MAX - NSEC_PER_SEC
}

/// A packet's cost is never negative, and a packet within the
/// per-second budget costs at most one second.
pub proof fn lemma_delay_bounds(length: u32)
    ensures
        spec_delay(length) >= 0,
        length <= BPS ==> spec_delay(length) <= NSEC_PER_SEC,
{
    assert((length as int * NSEC_PER_SEC as int) / (BPS as int) >= 0) by (nonlinear_arith)
        requires
            length as int >= 0,
            NSEC_PER_SEC as int > 0,
            BPS as int > 0,
    ;
    if length <= BPS {
        assert(length as int * NSEC_PER_SEC as int <= BPS as int * NSEC_PER_SEC as int)
            by (nonlinear_arith)
            requires
                length as int <= BPS as int,
                NSEC_PER_SEC as int > 0,
        ;
        assert((length as int * NSEC_PER_SEC as int) / (BPS as int) <= NSEC_PER_SEC as int)
            by (nonlinear_arith)
            requires
                length as int * NSEC_PER_SEC as int <= BPS as int * NSEC_PER_SEC as int,
                BPS as int > 0,
        ;
    }
}

/// Evaluate one packet against the entity's current rate state.
///
/// Pure and total on its admitted inputs: O(1), no allocation, no loop.
/// Returns the decision, the successor state to persist, and the
/// diagnostic offset for telemetry.
pub fn evaluate_packet(state: Info, length: u32, hint_ts: u64, now: u64) -> (r: (Action, Info, u64))
    requires
        hint_ts <= now,
        valid_state(state),
        valid_now(now),
    ensures
        r.0 == spec_action(state, length, hint_ts, now),
        r.1 == spec_new_state(state, length, hint_ts, now),
        r.1.t_last == spec_departure(state, length, hint_ts, now),
        r.2 == spec_offset(state, length, hint_ts, now),
        valid_state(r.1),
{
    if length as u64 > BPS {
        return (Action::Drop, Info { t_last: hint_ts, previous: now }, length as u64);
    }

    proof {
        lemma_delay_bounds(length);
    }
    let delay: u64 = (length as u64 * NSEC_PER_SEC) / BPS;

    let base: u64 = if now > state.previous && now - state.previous > NSEC_PER_SEC {
        hint_ts
    } else {
        state.t_last
    };
    let candidate: u64 = base + delay;

    if candidate <= hint_ts {
        return (Action::Pass, Info { t_last: hint_ts, previous: now }, now - candidate);
    }
    if candidate > now && candidate - now >= NSEC_PER_SEC {
        return (Action::Drop, Info { t_last: base, previous: now }, candidate - now);
    }
    if candidate <= now {
        return (Action::Drop, Info { t_last: base, previous: now }, now - candidate);
    }
    (Action::Pass, Info { t_last: candidate, previous: now }, candidate - now)
}

/// One directional hook evaluator: the decision algorithm together with
/// its own state store.  Ingress and egress each own one instance.
pub struct HookEvaluator {
    store: RateStore,
}

impl HookEvaluator {
    /// The per-entity states this evaluator has persisted.
    pub closed spec fn view(&self) -> Map<u64, Info> {
        self.store@
    }

    pub closed spec fn wf(&self) -> bool {
        &&& self.store.wf()
        &&& forall|e: u64|
            self.store@.contains_key(e) ==> valid_state(#[trigger] self.store@[e])
    }

    /// The state the decision for `entity` is made against: the stored
    /// one, or a fresh record pinned to `now` for an unseen entity.
    pub open spec fn state_before(self, entity: u64, now: u64) -> Info {
        if self@.contains_key(entity) {
            self@[entity]
        } else {
            Info { t_last: now, previous: now }
        }
    }

    pub fn new() -> (s: Self)
        ensures
            s.wf(),
            s@ == Map::<u64, Info>::empty(),
    {
        HookEvaluator { store: RateStore::new() }
    }

    /// The stored state for `entity`, if any.
    pub fn state_of(&self, entity: u64) -> (r: Option<Info>)
        ensures
            r matches Some(info) ==> self@.contains_key(entity) && self@[entity] == info,
            r is None ==> !self@.contains_key(entity),
    {
        self.store.get(entity)
    }

    /// Decide one packet: fetch or lazily create the entity's state,
    /// evaluate, persist the successor state, and return the telemetry
    /// record carrying the verdict.
    ///
    /// The only fault is a full state store on an unseen entity; it is
    /// reported explicitly, never mapped to a default verdict, and
    /// leaves the store unchanged.
    pub fn process_packet(&mut self, entity: u64, length: u32, tstamp: u64, now: u64) -> (r: Result<
        PacketLog,
        HookError,
    >)
        requires
            old(self).wf(),
            valid_now(now),
        ensures
            final(self).wf(),
            r is Ok <==> (old(self)@.contains_key(entity) || old(self)@.len() < CAPACITY),
            ({
                let state0 = old(self).state_before(entity, now);
                let hint = clamp_hint(tstamp, now);
                match r {
                    Ok(log) => {
                        &&& log.action == spec_action(state0, length, hint, now).spec_verdict()
                        &&& log.tot_len == length
                        &&& log.now == spec_offset(state0, length, hint, now)
                        &&& final(self)@ == old(self)@.insert(
                            entity,
                            spec_new_state(state0, length, hint, now),
                        )
                    },
                    Err(e) => {
                        &&& e == HookError::StateStoreFull
                        &&& final(self)@ == old(self)@
                    },
                }
            }),
    {
        let hint_ts: u64 = if tstamp > now {
            now
        } else {
            tstamp
        };
        let state: Info = match self.store.get(entity) {
            Some(info) => info,
            None => {
                let init = Info { t_last: now, previous: now };
                if !self.store.put(entity, init) {
                    return Err(HookError::StateStoreFull);
                }
                init
            },
        };
        let (action, new_state, offset) = evaluate_packet(state, length, hint_ts, now);
        let stored = self.store.put(entity, new_state);
        assert(stored);
        proof {
            assert(self.store@ =~= old(self).store@.insert(entity, new_state));
        }
        Ok(PacketLog { now: offset, action: action.verdict(), tot_len: length })
    }
}

} // verus!
