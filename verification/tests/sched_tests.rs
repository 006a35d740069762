use ws_benchmark::sched::{
    client_id, gate_set, phase_of, progress_due, ramp_target, spawn_now, Phase, PhaseConfig,
};

fn cfg() -> PhaseConfig {
    PhaseConfig { ramp_ms: 1000, warmup_ms: 2000, hold_ms: 3000, ramp_down_ms: 500 }
}

#[test]
fn phases_follow_the_timeline() {
    let c = cfg();
    assert_eq!(phase_of(0, &c), Phase::RampUp);
    assert_eq!(phase_of(999, &c), Phase::RampUp);
    assert_eq!(phase_of(1000, &c), Phase::WarmUp);
    assert_eq!(phase_of(2999, &c), Phase::WarmUp);
    assert_eq!(phase_of(3000, &c), Phase::Hold);
    assert_eq!(phase_of(5999, &c), Phase::Hold);
    assert_eq!(phase_of(6000, &c), Phase::RampDown);
    assert_eq!(phase_of(6499, &c), Phase::RampDown);
    assert_eq!(phase_of(6500, &c), Phase::Done);
}

#[test]
fn zero_warmup_skips_straight_to_hold() {
    let c = PhaseConfig { ramp_ms: 1000, warmup_ms: 0, hold_ms: 2000, ramp_down_ms: 0 };
    assert_eq!(phase_of(1000, &c), Phase::Hold);
    assert!(gate_set(1000, &c));
    assert!(!gate_set(999, &c));
}

#[test]
fn gate_transitions_exactly_once() {
    let c = cfg();
    let mut transitions = 0;
    let mut prev = gate_set(0, &c);
    assert!(!prev);
    for t in 1..8000u64 {
        let now = gate_set(t, &c);
        if now != prev {
            assert!(now && !prev, "gate must never fall back");
            transitions += 1;
        }
        prev = now;
    }
    assert_eq!(transitions, 1);
    assert!(!gate_set(2999, &c));
    assert!(gate_set(3000, &c));
}

#[test]
fn ramp_target_is_the_clamped_linear_rate() {
    assert_eq!(ramp_target(0, 1000, 10), 0);
    assert_eq!(ramp_target(500, 1000, 10), 5);
    assert_eq!(ramp_target(999, 1000, 10), 9);
    assert_eq!(ramp_target(1000, 1000, 10), 10);
    assert_eq!(ramp_target(5000, 1000, 10), 10);
    assert_eq!(ramp_target(0, 0, 10), 10);
    assert_eq!(ramp_target(333, 1000, 3), 0);
    assert_eq!(ramp_target(334, 1000, 3), 1);
}

#[test]
fn ramp_target_never_decreases() {
    let mut prev = 0;
    for t in 0..2000u64 {
        let now = ramp_target(t, 1500, 137);
        assert!(now >= prev);
        prev = now;
    }
    assert_eq!(prev, 137);
}

#[test]
fn spawn_and_progress_helpers() {
    assert_eq!(spawn_now(7, 4), 3);
    assert_eq!(spawn_now(4, 7), 0);
    assert_eq!(client_id(100, 3), 103);
    assert!(progress_due(5000));
    assert!(!progress_due(4999));
}
