use dbmeter::bridge::{BridgeEvent, CallbackOutcome, Control, JackHandler};

/// Encode an amplitude in [-1, 1) as a Q1.31 fixed-point sample.
fn q31(x: f64) -> i32 {
    (x * 2147483648.0) as i32
}

#[test]
fn process_feeds_meters_and_stamps_clock() {
    let mut h = JackHandler::new(48000, 100);
    let batch = vec![q31(0.25), q31(-0.5)];
    let r = h.process(&batch, 150);
    assert_eq!(r, Control::Continue);
    assert!(h.is_alive());
    assert_eq!(h.next_time(), 150);
    assert_eq!(h.peak_meter.peak_sample, q31(0.5).unsigned_abs() as u64);
    assert!(h.vu_meter.vu_sample > 0);
}

#[test]
fn guard_runs_nothing_when_already_dead() {
    let mut h = JackHandler::new(48000, 100);
    h.mark_dead();
    let batch = vec![q31(0.9)];
    let r = h.process(&batch, 200);
    assert_eq!(r, Control::Quit);
    assert_eq!(h.peak_meter.peak_sample, 0);
    assert_eq!(h.vu_meter.vu_sample, 0);
    assert_eq!(h.next_time(), 100);
    assert_eq!(h.thread_init(), Control::Quit);
    assert_eq!(h.xrun(), Control::Quit);
    assert_eq!(h.freewheel(true), Control::Quit);
}

#[test]
fn abnormal_termination_flips_liveness_and_quits() {
    let mut h = JackHandler::new(48000, 0);
    assert!(h.guard_enter());
    let r = h.guard_exit(CallbackOutcome::AbnormalTermination);
    assert_eq!(r, Control::Quit);
    assert!(!h.is_alive());
    // Any further callback returns quit without executing its body.
    let r2 = h.process(&vec![q31(0.5)], 10);
    assert_eq!(r2, Control::Quit);
    assert_eq!(h.peak_meter.peak_sample, 0);
}

#[test]
fn voluntary_continue_leaves_state_untouched() {
    let mut h = JackHandler::new(48000, 7);
    let r = h.guard_exit(CallbackOutcome::Completed(Control::Continue));
    assert_eq!(r, Control::Continue);
    assert!(h.is_alive());
    assert_eq!(h.next_time(), 7);
}

#[test]
fn shutdown_is_fatal_and_idempotent() {
    let mut h = JackHandler::new(48000, 0);
    assert_eq!(h.shutdown(), Control::Quit);
    assert!(!h.is_alive());
    assert_eq!(h.shutdown(), Control::Quit);
    assert!(!h.is_alive());
}

#[test]
fn unsupported_reconfiguration_is_fatal() {
    let mut h = JackHandler::new(48000, 0);
    let w = h.vu_meter.vu_weight;
    assert_eq!(h.sample_rate(96000), Control::Quit);
    assert!(!h.is_alive());
    // The decay weight is not rederived for the rejected rate.
    assert_eq!(h.vu_meter.vu_weight, w);

    let mut h2 = JackHandler::new(48000, 0);
    assert_eq!(h2.buffer_size(1024), Control::Quit);
    assert!(!h2.is_alive());
}

#[test]
fn clock_is_nondecreasing_while_alive() {
    let mut h = JackHandler::new(48000, 10);
    let batch = vec![q31(0.1)];
    let mut last = h.next_time();
    for t in [10u64, 20, 20, 35, 80] {
        let r = h.process(&batch, t);
        assert_eq!(r, Control::Continue);
        assert!(h.next_time() >= last);
        last = h.next_time();
    }
    h.xrun();
    h.freewheel(true);
    h.thread_init();
    assert_eq!(h.next_time(), last);
}

#[test]
fn liveness_is_sticky_across_all_events() {
    let mut h = JackHandler::new(48000, 0);
    h.mark_dead();
    let events = vec![
        BridgeEvent::ThreadInit,
        BridgeEvent::ProcessCycle { samples: vec![q31(0.5)], cycle_end: 99 },
        BridgeEvent::Freewheel { enabled: false },
        BridgeEvent::Xrun,
        BridgeEvent::Shutdown,
        BridgeEvent::SampleRateChanged { frames: 44100 },
        BridgeEvent::BufferSizeChanged { frames: 256 },
    ];
    for e in events.iter() {
        let r = h.handle_event(e);
        assert_eq!(r, Control::Quit);
        assert!(!h.is_alive());
        assert_eq!(h.next_time(), 0);
    }
}

#[test]
fn handle_event_matches_direct_calls() {
    let batch = vec![q31(0.3), q31(-0.6)];
    let mut via_events = JackHandler::new(48000, 5);
    let mut direct = JackHandler::new(48000, 5);

    let r1 = via_events.handle_event(&BridgeEvent::ProcessCycle {
        samples: batch.clone(),
        cycle_end: 12,
    });
    let r2 = direct.process(&batch, 12);
    assert_eq!(r1, r2);
    assert_eq!(via_events.next_time(), direct.next_time());
    assert_eq!(via_events.peak_meter.peak_sample, direct.peak_meter.peak_sample);
    assert_eq!(via_events.vu_meter.vu_sample, direct.vu_meter.vu_sample);

    assert_eq!(via_events.handle_event(&BridgeEvent::Shutdown), Control::Quit);
    assert!(!via_events.is_alive());
}
