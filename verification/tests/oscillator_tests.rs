use rsonance::oscillator::{
    Oscillator, Waveform, AMP_DEFAULT_MILLIONTHS, AMP_MAX_MILLIONTHS, FREQ_DEFAULT_MILLIHZ,
    FREQ_MAX_MILLIHZ, FREQ_MIN_MILLIHZ, PHASE_CYCLE_MILLIONTHS,
};

#[test]
fn default_oscillator_values() {
    let o = Oscillator::default();
    assert_eq!(o.waveform, Waveform::Sine);
    assert_eq!(o.frequency_millihz, FREQ_DEFAULT_MILLIHZ);
    assert_eq!(o.frequency_millihz, 440_000);
    assert_eq!(o.amplitude_millionths, AMP_DEFAULT_MILLIONTHS);
    assert_eq!(o.amplitude_millionths, 500_000);
    assert_eq!(o.phase_millionths, 0);
}

#[test]
fn clamp_frequency_high_and_low() {
    // 50 kHz proposed: stored value is the 20 kHz ceiling.
    let mut o = Oscillator::default();
    let eff = o.set_frequency(50_000_000);
    assert_eq!(eff, 20_000_000);
    assert_eq!(o.frequency_millihz, FREQ_MAX_MILLIHZ);
    // 5 Hz proposed: stored value is the 20 Hz floor.
    let eff = o.set_frequency(5_000);
    assert_eq!(eff, 20_000);
    assert_eq!(o.frequency_millihz, FREQ_MIN_MILLIHZ);
}

#[test]
fn in_range_frequency_stored_exactly() {
    let mut o = Oscillator::default();
    let eff = o.set_frequency(1_234_567);
    assert_eq!(eff, 1_234_567);
    assert_eq!(o.frequency_millihz, 1_234_567);
}

#[test]
fn clamp_amplitude() {
    let mut o = Oscillator::default();
    let eff = o.set_amplitude(2_000_000);
    assert_eq!(eff, AMP_MAX_MILLIONTHS);
    let eff = o.set_amplitude(750_000);
    assert_eq!(eff, 750_000);
    assert_eq!(o.amplitude_millionths, 750_000);
    let eff = o.set_amplitude(0);
    assert_eq!(eff, 0);
}

#[test]
fn clamp_phase_below_one_cycle() {
    let mut o = Oscillator::default();
    let eff = o.set_phase_offset(PHASE_CYCLE_MILLIONTHS);
    assert_eq!(eff, PHASE_CYCLE_MILLIONTHS - 1);
    let eff = o.set_phase_offset(250_000);
    assert_eq!(eff, 250_000);
    assert_eq!(o.phase_millionths, 250_000);
}

#[test]
fn set_waveform_replaces_discriminant() {
    let mut o = Oscillator::default();
    o.set_waveform(Waveform::Triangle);
    assert_eq!(o.waveform, Waveform::Triangle);
    o.set_waveform(Waveform::Saw);
    assert_eq!(o.waveform, Waveform::Saw);
}

#[test]
fn snapshot_is_a_value_copy() {
    let mut o = Oscillator::default();
    o.set_frequency(100_000);
    let snap = o.snapshot();
    assert_eq!(snap, o);
    // Mutating the original does not change the snapshot.
    o.set_frequency(200_000);
    assert_eq!(snap.frequency_millihz, 100_000);
    assert_eq!(o.frequency_millihz, 200_000);
}

#[test]
fn wild_edit_sequence_stays_in_range() {
    let mut o = Oscillator::default();
    let wild: [u32; 6] = [0, 5, u32::MAX, 20_000, 20_000_000, 3_000_000_000];
    for &v in wild.iter() {
        o.set_frequency(v);
        assert!(FREQ_MIN_MILLIHZ <= o.frequency_millihz && o.frequency_millihz <= FREQ_MAX_MILLIHZ);
        o.set_amplitude(v);
        assert!(o.amplitude_millionths <= AMP_MAX_MILLIONTHS);
        o.set_phase_offset(v);
        assert!(o.phase_millionths < PHASE_CYCLE_MILLIONTHS);
    }
}
