use dbmeter::meters::{vu_weight_for_rate, SamplePeakMeter, VUMeter, WEIGHT_ONE};

/// Full scale of the Q1.31 sample representation, as a float.
const Q31: f64 = 2147483648.0;

/// Encode an amplitude in [-1, 1) as a Q1.31 fixed-point sample.
fn q31(x: f64) -> i32 {
    (x * Q31) as i32
}

/// A Q1.31 magnitude as decibels full scale; 0 maps to negative infinity.
fn peak_db(mag: u64) -> f64 {
    20.0 * ((mag as f64) / Q31).log10()
}

/// A Q32.32 smoothed magnitude as decibels full scale.
fn vu_db(v: u64) -> f64 {
    20.0 * ((v as f64) / Q31).log10()
}

#[test]
fn peak_single_batch_in_db() {
    let mut meter = SamplePeakMeter::new();
    let batch = vec![q31(0.1), q31(-0.5), q31(0.3)];
    meter.integrate(&batch);
    let db = peak_db(meter.read_and_reset());
    assert!((db - (-6.0206)).abs() < 0.01, "got {db}");
    let db2 = peak_db(meter.read_and_reset());
    assert!(db2.is_infinite() && db2 < 0.0);
}

#[test]
fn peak_covers_all_batches_then_resets() {
    let mut meter = SamplePeakMeter::new();
    meter.integrate(&vec![q31(0.125), q31(-0.25)]);
    meter.integrate(&vec![]);
    meter.integrate(&vec![q31(0.0625), q31(-0.75), q31(0.5)]);
    meter.integrate(&vec![q31(0.03125)]);
    assert_eq!(meter.read_and_reset(), q31(0.75).unsigned_abs() as u64);
    assert_eq!(meter.read_and_reset(), 0);
}

#[test]
fn peak_result_does_not_depend_on_batch_order() {
    let batches = vec![
        vec![q31(0.1), q31(0.2)],
        vec![q31(-0.9)],
        vec![],
        vec![q31(0.4), q31(-0.3), q31(0.85)],
    ];
    let mut forward = SamplePeakMeter::new();
    for b in batches.iter() {
        forward.integrate(b);
    }
    let mut backward = SamplePeakMeter::new();
    for b in batches.iter().rev() {
        backward.integrate(b);
    }
    assert_eq!(forward.read_and_reset(), backward.read_and_reset());
}

#[test]
fn decay_weight_in_open_unit_interval_and_monotone() {
    let rates = [1u32, 100, 8000, 22050, 44100, 48000, 96000, 192000];
    let mut last: u64 = 0;
    for &r in rates.iter() {
        let w = vu_weight_for_rate(r);
        assert!(1 <= w && w < WEIGHT_ONE, "rate {r} gave {w}");
        assert!(w >= last, "weight fell from {last} at rate {r}");
        last = w;
    }
    assert!(vu_weight_for_rate(48000) > vu_weight_for_rate(8000));
}

#[test]
fn decay_weight_exact_value_at_48000() {
    assert_eq!(vu_weight_for_rate(48000), 4293594186);
}

#[test]
fn loudness_silence_reads_negative_infinity_not_nan() {
    let mut meter = VUMeter::new(48000);
    meter.integrate(&vec![0i32; 512]);
    let v = meter.read();
    assert_eq!(v, 0);
    let db = vu_db(v);
    assert!(!db.is_nan());
    assert!(db.is_infinite() && db < 0.0);
}

#[test]
fn loudness_reaches_corrected_amplitude_within_rise_time() {
    let mut meter = VUMeter::new(48000);
    let batch = vec![q31(0.5); 100];
    // 300 ms at 48 kHz: 14400 samples.
    for _ in 0..144 {
        meter.integrate(&batch);
    }
    let db = vu_db(meter.read());
    let corrected = 0.5 * std::f64::consts::PI / 2.0;
    let target = 20.0 * corrected.log10();
    assert!((db - target).abs() < 1.0, "got {db}, want about {target}");
}

#[test]
fn loudness_rate_change_keeps_accumulated_value() {
    let mut meter = VUMeter::new(48000);
    meter.integrate(&vec![q31(0.5); 64]);
    let before = meter.read();
    assert!(before > 0);
    meter.update_sampling_rate(96000);
    assert_eq!(meter.read(), before);
    assert_eq!(meter.vu_weight, vu_weight_for_rate(96000));
}

#[test]
fn fresh_meters_are_silent() {
    let mut peak = SamplePeakMeter::new();
    assert_eq!(peak.read_and_reset(), 0);
    let vu = VUMeter::new(44100);
    assert_eq!(vu.read(), 0);
}
