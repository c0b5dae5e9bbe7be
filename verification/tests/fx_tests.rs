use marconio::fixed::SAMPLE_LIMIT;
use marconio::fixed::SCALE;
use marconio::fx::ChainCoeffs;
use marconio::fx::FxProcessor;
use marconio::fx::RawCoeffs;
use marconio::fx::clamped_freq_centihz;
use marconio::fx::compress;
use marconio::fx::finish_sample;
use marconio::fx::floored_q_milli;
use marconio::fx::params_for;
use marconio::preset::AudioFxPreset;

fn identity_raw() -> RawCoeffs {
    RawCoeffs { b0: SCALE, b1: 0, b2: 0, a0: SCALE, a1: 0, a2: 0 }
}

/// A stable passthrough section whose first history register picks up
/// half of every input sample.
fn history_raw() -> RawCoeffs {
    RawCoeffs { b0: SCALE, b1: SCALE / 2, b2: 0, a0: SCALE, a1: 0, a2: 0 }
}

fn full_chain_coeffs() -> ChainCoeffs {
    ChainCoeffs {
        high_pass: Some(identity_raw()),
        low_shelf: Some(identity_raw()),
        mid_peak: Some(identity_raw()),
        low_pass: Some(identity_raw()),
    }
}

fn coeffs_for(preset: AudioFxPreset) -> ChainCoeffs {
    let p = params_for(preset);
    ChainCoeffs {
        high_pass: p.high_pass.map(|_| history_raw()),
        low_shelf: p.low_shelf.map(|_| identity_raw()),
        mid_peak: p.mid_peak.map(|_| identity_raw()),
        low_pass: p.low_pass.map(|_| identity_raw()),
    }
}

#[test]
fn bass_table_holds_the_bass_tuning() {
    let p = params_for(AudioFxPreset::Bass);
    let hp = p.high_pass.unwrap();
    assert_eq!(hp.freq_centihz, 2600);
    assert_eq!(hp.q_milli, 707);
    let shelf = p.low_shelf.unwrap();
    assert_eq!(shelf.freq_centihz, 9200);
    assert_eq!(shelf.gain_decidb, 74);
    let peak = p.mid_peak.unwrap();
    assert_eq!(peak.freq_centihz, 18_000);
    assert_eq!(peak.gain_decidb, 40);
    let lp = p.low_pass.unwrap();
    assert_eq!(lp.freq_centihz, 930_000);
    assert!(!p.has_warble);
    assert_eq!(p.drive_milli, 1360);
    assert_eq!(p.comp_threshold_micro, 690_000);
    assert_eq!(p.comp_ratio_milli, 2700);
    assert_eq!(p.makeup_milli, 1100);
}

#[test]
fn clean_table_is_the_identity() {
    let p = params_for(AudioFxPreset::Clean);
    assert!(p.high_pass.is_none());
    assert!(p.low_shelf.is_none());
    assert!(p.mid_peak.is_none());
    assert!(p.low_pass.is_none());
    assert!(!p.has_warble);
    assert_eq!(p.drive_milli, 1000);
    assert_eq!(p.saturation_mix_milli, 0);
    assert_eq!(p.makeup_milli, 1000);
}

#[test]
fn cassette_is_the_only_preset_with_warble() {
    assert!(params_for(AudioFxPreset::Cassette).has_warble);
    assert_eq!(params_for(AudioFxPreset::Cassette).warble_mix_milli, 620);
    assert!(!params_for(AudioFxPreset::Radio).has_warble);
}

#[test]
fn frequency_clamps_to_nyquist_safe_bound() {
    let sr = 44_100;
    let bound = 45 * sr as u64;
    assert_eq!(clamped_freq_centihz(bound + 1, sr), clamped_freq_centihz(bound, sr));
    assert_eq!(clamped_freq_centihz(u64::MAX, sr), bound);
    assert_eq!(clamped_freq_centihz(1, sr), 2000);
    assert_eq!(clamped_freq_centihz(10_500, sr), 10_500);
}

#[test]
fn quality_is_floored_at_one_tenth() {
    assert_eq!(floored_q_milli(0), 100);
    assert_eq!(floored_q_milli(99), 100);
    assert_eq!(floored_q_milli(100), 100);
    assert_eq!(floored_q_milli(750), 750);
}

#[test]
fn compressor_passes_signals_below_threshold() {
    let t = 670_000;
    for x in [0, 1, -1, 500_000, -500_000, 670_000, -670_000] {
        assert_eq!(compress(x, t, 2900), x);
    }
}

#[test]
fn compressor_halves_the_excess_at_ratio_two() {
    // A sample at twice the threshold, ratio 2: magnitude lands at
    // exactly one and a half thresholds.
    let t = 600_000;
    assert_eq!(compress(2 * t, t, 2000), 900_000);
    assert_eq!(compress(-2 * t, t, 2000), -900_000);
}

#[test]
fn finish_clamps_to_full_scale() {
    // Makeup gain of 2.0 on a full-scale sample: the hard clamp holds
    // the output at full scale.
    assert_eq!(finish_sample(SCALE, SCALE, 1000, 2000), SCALE);
    assert_eq!(finish_sample(-SCALE, SCALE, 1000, 2000), -SCALE);
    // Below threshold with unit makeup, the tail is the identity.
    assert_eq!(finish_sample(123_456, SCALE, 1000, 1000), 123_456);
}

#[test]
fn clean_buffer_pass_is_bit_identical() {
    let mut p = FxProcessor::new();
    let before: Vec<i64> = vec![0, SCALE, -SCALE, 3 * SCALE, -3 * SCALE, 7, 12345];
    let mut samples = before.clone();
    let lfo: Vec<(i64, i64)> = vec![(0, 0); samples.len()];
    p.process_buffer(&mut samples, &lfo);
    p.finish_buffer(&mut samples);
    assert_eq!(samples, before);
}

#[test]
fn configure_with_identical_inputs_keeps_filter_history() {
    let mut p = FxProcessor::new();
    let coeffs = coeffs_for(AudioFxPreset::Bass);
    p.configure(44_100, 1, AudioFxPreset::Bass, &coeffs);

    // End the buffer on an impulse so the histories sit off zero.
    let mut samples: Vec<i64> = vec![0, 0, 0, SCALE];
    let lfo: Vec<(i64, i64)> = vec![(0, 0); samples.len()];
    p.process_buffer(&mut samples, &lfo);
    let z1_after = p.high_pass.as_ref().unwrap().z1.clone();
    assert!(z1_after.iter().any(|&z| z != 0));

    // The same triple again: a no-op, histories untouched.
    p.configure(44_100, 1, AudioFxPreset::Bass, &coeffs);
    assert_eq!(p.high_pass.as_ref().unwrap().z1, z1_after);
}

#[test]
fn configuration_change_resets_histories_to_silence() {
    let mut p = FxProcessor::new();
    let coeffs = coeffs_for(AudioFxPreset::Bass);
    p.configure(44_100, 1, AudioFxPreset::Bass, &coeffs);
    let mut samples: Vec<i64> = vec![0, 0, 0, SCALE];
    let lfo: Vec<(i64, i64)> = vec![(0, 0); samples.len()];
    p.process_buffer(&mut samples, &lfo);
    assert!(p.high_pass.as_ref().unwrap().z1.iter().any(|&z| z != 0));

    // A different sample rate forces a rebuild: silence again.
    p.configure(48_000, 1, AudioFxPreset::Bass, &coeffs);
    assert!(p.high_pass.as_ref().unwrap().z1.iter().all(|&z| z == 0));
    assert!(p.high_pass.as_ref().unwrap().z2.iter().all(|&z| z == 0));

    // A preset change does too.
    let mut q = FxProcessor::new();
    q.configure(44_100, 1, AudioFxPreset::Bass, &coeffs);
    let mut s2: Vec<i64> = vec![0, 0, SCALE];
    let l2: Vec<(i64, i64)> = vec![(0, 0); s2.len()];
    q.process_buffer(&mut s2, &l2);
    q.configure(44_100, 1, AudioFxPreset::Radio, &coeffs_for(AudioFxPreset::Radio));
    assert!(q.high_pass.as_ref().unwrap().z1.iter().all(|&z| z == 0));
}

#[test]
fn normalization_divides_the_leading_coefficient_out() {
    let mut p = FxProcessor::new();
    // a0 = 2.0: every stored coefficient is the raw one halved, and the
    // stored form carries no denominator lead at all.
    let raw = RawCoeffs { b0: 2 * SCALE, b1: SCALE, b2: 0, a0: 2 * SCALE, a1: -SCALE, a2: 0 };
    let coeffs = ChainCoeffs {
        high_pass: Some(raw),
        low_shelf: None,
        mid_peak: Some(identity_raw()),
        low_pass: Some(identity_raw()),
    };
    p.configure(44_100, 2, AudioFxPreset::Radio, &coeffs);
    let c = &p.high_pass.as_ref().unwrap().c;
    assert_eq!(c.b0, SCALE);
    assert_eq!(c.b1, SCALE / 2);
    assert_eq!(c.b2, 0);
    assert_eq!(c.a1, -SCALE / 2);
    assert_eq!(c.a2, 0);
}

#[test]
fn loud_input_lands_inside_full_scale_for_radio() {
    let mut p = FxProcessor::new();
    p.configure(44_100, 2, AudioFxPreset::Radio, &coeffs_for(AudioFxPreset::Radio));
    let mut samples: Vec<i64> = (0..512)
        .map(|i| if i % 2 == 0 { 5 * SCALE } else { -5 * SCALE })
        .collect();
    let lfo: Vec<(i64, i64)> = vec![(0, 0); 256];
    p.process_buffer(&mut samples, &lfo);
    for s in samples.iter_mut() {
        *s = (*s).clamp(-SAMPLE_LIMIT, SAMPLE_LIMIT);
    }
    p.finish_buffer(&mut samples);
    assert_eq!(samples.len(), 512);
    assert!(samples.iter().all(|&s| -SCALE <= s && s <= SCALE));
}

#[test]
fn bass_silence_stream_stays_silent_and_sized() {
    // Two seconds of mono 44.1 kHz silence through the bass chain: the
    // chain carries the bass stages, no sample is dropped or added, and
    // everything stays within full scale.
    let mut p = FxProcessor::new();
    p.configure(44_100, 1, AudioFxPreset::Bass, &coeffs_for(AudioFxPreset::Bass));
    assert!(p.high_pass.is_some());
    assert!(p.low_shelf.is_some());
    assert!(p.mid_peak.is_some());
    assert!(p.low_pass.is_some());
    assert!(p.warble.is_none());

    let mut samples: Vec<i64> = vec![0; 88_200];
    let lfo: Vec<(i64, i64)> = vec![(0, 0); 88_200];
    p.process_buffer(&mut samples, &lfo);
    p.finish_buffer(&mut samples);
    assert_eq!(samples.len(), 88_200);
    assert!(samples.iter().all(|&s| -SCALE <= s && s <= SCALE));
    assert!(samples.iter().all(|&s| s == 0));
}

#[test]
fn full_chain_coeffs_match_no_clean_plan() {
    let full = full_chain_coeffs();
    assert!(!full.matches_params(&params_for(AudioFxPreset::Clean)));
    assert!(!full.matches_params(&params_for(AudioFxPreset::Radio)));
    assert!(full.matches_params(&params_for(AudioFxPreset::Bass)));
    assert!(coeffs_for(AudioFxPreset::Bass).matches_params(&params_for(AudioFxPreset::Bass)));
    assert!(ChainCoeffs::empty().matches_params(&params_for(AudioFxPreset::Clean)));
}

#[test]
fn degenerate_raw_coefficients_are_rejected() {
    let zero_lead = RawCoeffs { b0: SCALE, b1: 0, b2: 0, a0: 0, a1: 0, a2: 0 };
    assert!(!zero_lead.is_ok());
    let too_large = RawCoeffs { b0: 65 * SCALE, b1: 0, b2: 0, a0: SCALE, a1: 0, a2: 0 };
    assert!(!too_large.is_ok());
    assert!(identity_raw().is_ok());
}

#[test]
fn cassette_warble_cursor_advances_once_per_frame() {
    let mut p = FxProcessor::new();
    let coeffs = coeffs_for(AudioFxPreset::Cassette);
    p.configure(44_100, 2, AudioFxPreset::Cassette, &coeffs);
    let buf_len = p.warble.as_ref().unwrap().buf_len;
    assert_eq!(p.warble.as_ref().unwrap().write_index, 0);

    // Five whole stereo frames: the shared cursor moves five steps.
    let mut samples: Vec<i64> = vec![0; 10];
    let lfo: Vec<(i64, i64)> = vec![(0, 0); 5];
    p.process_buffer(&mut samples, &lfo);
    assert_eq!(p.warble.as_ref().unwrap().write_index, 5 % buf_len);

    // A trailing partial frame still advances the cursor once.
    let mut tail: Vec<i64> = vec![0; 3];
    let tail_lfo: Vec<(i64, i64)> = vec![(0, 0); 2];
    p.process_buffer(&mut tail, &tail_lfo);
    assert_eq!(p.warble.as_ref().unwrap().write_index, 7 % buf_len);
}

#[test]
fn identity_stages_leave_only_the_dynamics_tail() {
    // Every stage a passthrough section: the filter pass returns the
    // buffer unchanged, and the dynamics tail applies only the radio
    // makeup gain to an in-threshold sample.
    let mut p = FxProcessor::new();
    let coeffs = ChainCoeffs {
        high_pass: Some(identity_raw()),
        low_shelf: None,
        mid_peak: Some(identity_raw()),
        low_pass: Some(identity_raw()),
    };
    p.configure(44_100, 1, AudioFxPreset::Radio, &coeffs);
    let mut samples: Vec<i64> = vec![123_456];
    let lfo: Vec<(i64, i64)> = vec![(0, 0)];
    p.process_buffer(&mut samples, &lfo);
    assert_eq!(samples, vec![123_456]);
    p.finish_buffer(&mut samples);
    assert_eq!(samples, vec![123_456 * 1120 / 1000]);
}

#[test]
fn empty_buffers_are_a_no_op_for_every_preset() {
    for preset in [AudioFxPreset::Clean, AudioFxPreset::Cassette, AudioFxPreset::Radio] {
        let mut p = FxProcessor::new();
        p.configure(44_100, 2, preset, &coeffs_for(preset));
        let mut samples: Vec<i64> = Vec::new();
        let lfo: Vec<(i64, i64)> = Vec::new();
        p.process_buffer(&mut samples, &lfo);
        p.finish_buffer(&mut samples);
        assert!(samples.is_empty());
        if let Some(w) = p.warble.as_ref() {
            assert_eq!(w.write_index, 0);
        }
    }
}
