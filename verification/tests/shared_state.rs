use dbmeter::bridge::{CallbackOutcome, Control};
use dbmeter::shared::{JackInterface, SharedBridgeState};

/// Encode an amplitude in [-1, 1) as a Q1.31 fixed-point sample.
fn q31(x: f64) -> i32 {
    (x * 2147483648.0) as i32
}

#[test]
fn shared_process_roundtrip() {
    let state = SharedBridgeState::new(48000, 0);
    let batch = vec![q31(0.25), q31(-0.5), q31(0.125)];
    let r = state.process(&batch, 42);
    assert_eq!(r, Control::Continue);
    let facade = JackInterface::new(&state);
    assert!(facade.is_alive());
    assert_eq!(facade.next_time(), 42);
    assert!(facade.read_loudness() > 0);
    assert_eq!(facade.read_and_reset_peak(), q31(0.5).unsigned_abs() as u64);
    // The peak is back at 0 immediately after the read.
    assert_eq!(facade.read_and_reset_peak(), 0);
}

#[test]
fn shared_peak_keeps_largest_across_cycles() {
    let state = SharedBridgeState::new(48000, 0);
    state.process(&vec![q31(0.25)], 1);
    state.process(&vec![q31(-0.75), q31(0.5)], 2);
    state.process(&vec![q31(0.1)], 3);
    assert_eq!(state.read_and_reset_peak(), q31(0.75).unsigned_abs() as u64);
}

#[test]
fn shared_guard_runs_nothing_when_dead() {
    let state = SharedBridgeState::new(48000, 7);
    assert_eq!(state.shutdown(), Control::Quit);
    assert!(!state.is_alive());
    let r = state.process(&vec![q31(0.9)], 99);
    assert_eq!(r, Control::Quit);
    assert_eq!(state.read_cycle_end(), 7);
    assert_eq!(state.read_and_reset_peak(), 0);
    assert_eq!(state.thread_init(), Control::Quit);
    assert_eq!(state.xrun(), Control::Quit);
    assert_eq!(state.freewheel(false), Control::Quit);
}

#[test]
fn shared_abnormal_outcome_is_fatal() {
    let state = SharedBridgeState::new(48000, 0);
    let r = state.absorb_outcome(CallbackOutcome::AbnormalTermination);
    assert_eq!(r, Control::Quit);
    assert!(!state.is_alive());
    // A continue outcome on a live record leaves it alive.
    let state2 = SharedBridgeState::new(48000, 0);
    let r2 = state2.absorb_outcome(CallbackOutcome::Completed(Control::Continue));
    assert_eq!(r2, Control::Continue);
    assert!(state2.is_alive());
}

#[test]
fn shared_reconfiguration_is_fatal() {
    let state = SharedBridgeState::new(48000, 0);
    assert_eq!(state.sample_rate(96000), Control::Quit);
    assert!(!state.is_alive());
    let state2 = SharedBridgeState::new(48000, 0);
    assert_eq!(state2.buffer_size(512), Control::Quit);
    assert!(!state2.is_alive());
}

#[test]
fn shared_loudness_follows_sampling_rate() {
    // A lower sampling rate decays faster per sample, so one identical
    // batch leaves a larger smoothed value behind.
    let slow = SharedBridgeState::new(100, 0);
    let fast = SharedBridgeState::new(48000, 0);
    let batch = vec![q31(0.5); 32];
    slow.process(&batch, 1);
    fast.process(&batch, 1);
    assert!(slow.read_loudness() > fast.read_loudness());

    // Re-deriving the weight for a new rate changes future integration.
    let retuned = SharedBridgeState::new(48000, 0);
    retuned.update_sampling_rate(100);
    retuned.process(&batch, 1);
    assert_eq!(retuned.read_loudness(), slow.read_loudness());
}
