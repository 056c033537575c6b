use bandwidth::hook::{HookEvaluator, HookError};
use bandwidth::rate::{Info, BPS, NSEC_PER_SEC};

const T0: u64 = 2_000_000_000;

/// Cost in nanoseconds of a 1500-byte packet at 10 MiB/s.
const DELAY_1500: u64 = 1500 * NSEC_PER_SEC / BPS;

#[test]
fn first_packet_passes_with_small_offset() {
    let mut hook = HookEvaluator::new();
    let log = hook.process_packet(7, 1500, T0, T0).unwrap();
    assert_eq!(log.action, 1);
    assert_eq!(log.tot_len, 1500);
    assert_eq!(log.now, DELAY_1500);
    assert_eq!(DELAY_1500, 143_051);
    assert!(log.now < NSEC_PER_SEC / 100);
}

#[test]
fn burst_passes_then_drops() {
    let mut hook = HookEvaluator::new();
    let delay: u64 = 65_535 * NSEC_PER_SEC / BPS;
    assert_eq!(delay, 6_249_904);
    for i in 1u64..=200 {
        let log = hook.process_packet(7, 65_535, T0, T0).unwrap();
        if i * delay < NSEC_PER_SEC {
            assert_eq!(log.action, 1, "packet {i} should pass");
        } else {
            assert_eq!(log.action, 0, "packet {i} should drop");
        }
    }
    // With this cost the boundary falls between the 160th and the 161st packet.
    assert!(160 * delay < NSEC_PER_SEC && 161 * delay >= NSEC_PER_SEC);
}

#[test]
fn oversize_packet_drops() {
    let mut hook = HookEvaluator::new();
    let oversize: u32 = (BPS + 1) as u32;
    let log = hook.process_packet(7, oversize, T0, T0).unwrap();
    assert_eq!(log.action, 0);
    assert_eq!(log.now, oversize as u64);

    // Regardless of any stored state: also after a passing packet.
    let mut hook = HookEvaluator::new();
    assert_eq!(hook.process_packet(7, 1500, T0, T0).unwrap().action, 1);
    let log = hook.process_packet(7, oversize, T0 + 1_000, T0 + 1_000).unwrap();
    assert_eq!(log.action, 0);
}

#[test]
fn idle_gap_resets_schedule() {
    let mut hook = HookEvaluator::new();
    assert_eq!(hook.process_packet(7, 1500, T0, T0).unwrap().action, 1);

    // More than one second idle: the backlog is stale and the next
    // departure restarts from the packet's own timestamp hint.
    let t1 = T0 + NSEC_PER_SEC + 500_000_000;
    let hint = t1 - 1_000;
    let log = hook.process_packet(7, 1500, hint, t1).unwrap();
    assert_eq!(log.action, 1);
    let state = hook.state_of(7).unwrap();
    assert_eq!(state.t_last, hint + DELAY_1500);
    assert_eq!(state.previous, t1);
}

#[test]
fn due_packet_resets_to_hint() {
    let mut hook = HookEvaluator::new();
    assert_eq!(hook.process_packet(7, 1500, T0, T0).unwrap().action, 1);

    // Half a second later the candidate departure is long past the new
    // hint, so the stored departure becomes the hint exactly.
    let t1 = T0 + 500_000_000;
    let log = hook.process_packet(7, 1500, t1, t1).unwrap();
    assert_eq!(log.action, 1);
    assert_eq!(hook.state_of(7).unwrap().t_last, t1);
}

#[test]
fn departure_never_decreases_without_reset() {
    let mut hook = HookEvaluator::new();
    let mut last_departure: u64 = 0;
    for i in 0u64..500 {
        // One packet per millisecond: no gap ever exceeds one second.
        let now = T0 + i * 1_000_000;
        let _ = hook.process_packet(7, 1500, now, now).unwrap();
        let state = hook.state_of(7).unwrap();
        assert!(state.t_last >= last_departure);
        last_departure = state.t_last;
    }
}

#[test]
fn zero_length_packet_passes() {
    let mut hook = HookEvaluator::new();
    let log = hook.process_packet(7, 0, T0, T0).unwrap();
    assert_eq!(log.action, 1);
    assert_eq!(log.now, 0);
}

#[test]
fn past_slot_drop_keeps_departure() {
    let mut hook = HookEvaluator::new();
    assert_eq!(hook.process_packet(7, 1500, T0, T0).unwrap().action, 1);
    let departure = hook.state_of(7).unwrap().t_last;
    assert_eq!(departure, T0 + DELAY_1500);

    // A packet whose candidate slot already lies at or before `now`,
    // yet after the hint, is dropped — and the dropped packet's cost is
    // not charged: the stored departure stays put, only the time of the
    // last packet seen moves.
    let now = T0 + 200_000;
    let hint = T0 + 100_000;
    let log = hook.process_packet(7, 0, hint, now).unwrap();
    assert_eq!(log.action, 0);
    assert_eq!(log.now, now - departure);
    assert_eq!(hook.state_of(7).unwrap().t_last, departure);
    assert_eq!(hook.state_of(7).unwrap().previous, now);
}

#[test]
fn future_hint_is_clamped() {
    let mut hook = HookEvaluator::new();
    // A hint from the future cannot be trusted: it reads as `now`.
    let log = hook.process_packet(7, 1500, T0 + 5_000_000, T0).unwrap();
    assert_eq!(log.action, 1);
    assert_eq!(hook.state_of(7).unwrap().t_last, T0 + DELAY_1500);
}

#[test]
fn store_full_reports_fault() {
    let mut hook = HookEvaluator::new();
    for entity in 0u64..100 {
        assert!(hook.process_packet(entity, 1500, T0, T0).is_ok());
    }
    // The 101st entity is rejected explicitly, never silently allowed.
    assert_eq!(
        hook.process_packet(100, 1500, T0, T0),
        Err(HookError::StateStoreFull)
    );
    // Entities already tracked are still served.
    assert!(hook.process_packet(42, 1500, T0 + 1_000, T0 + 1_000).is_ok());
}

#[test]
fn passed_cost_stays_within_window_plus_one_second() {
    // A reset-free run with varied lengths and sub-second gaps: the
    // total nanosecond cost of the packets that pass never exceeds the
    // elapsed time plus one second of tolerated burst.
    let mut hook = HookEvaluator::new();
    let mut now = T0;
    let mut passed_cost: u64 = 0;
    for i in 0u64..300 {
        now += (i % 7) * 100_000;
        let length = ((i * 37) % 3_000) as u32;
        let log = hook.process_packet(7, length, now, now).unwrap();
        if log.action == 1 {
            passed_cost += length as u64 * NSEC_PER_SEC / BPS;
        }
    }
    assert!(passed_cost <= (now - T0) + NSEC_PER_SEC);
}

#[test]
fn info_new_sets_fields() {
    let info = Info::new(5, 6);
    assert_eq!(info.t_last, 5);
    assert_eq!(info.previous, 6);
}
