use synth_core::basic_signal::play;
use synth_core::engine::Synth;
use synth_core::graph::{Graph, Node, Stage};
use synth_core::{AMP, UNIT};

fn sign_flips(samples: &[i64]) -> usize {
    let mut flips = 0;
    for w in samples.windows(2) {
        if (w[0] > 0 && w[1] < 0) || (w[0] < 0 && w[1] > 0) {
            flips += 1;
        }
    }
    flips
}

// End-to-end: at 44100 Hz with the frequency parameter at 0.44 of full
// scale (440 Hz through the 1000 Hz scalar), one 64-sample block holds
// 64 * 440 / 44100 of a cycle, so the sine crosses zero
// 64 * 440 / 44100 * 2, roughly 1.3, times: exactly one strict sign
// change in the rendered data.
#[test]
fn sine_block_zero_crossings_match_frequency() {
    let mut synth = Synth::new();
    synth.set_sample_rate(44100);
    synth.parameters.set_parameter(3, 440_000);
    let (left, right) = play(&mut synth, 2, 64).unwrap();
    assert_eq!(left.len(), 64);
    assert_eq!(right.len(), 64);
    assert_eq!(sign_flips(&left), 1);
    assert_eq!(sign_flips(&right), 1);
    assert!(left.iter().any(|&s| s != 0));
}

// A sine whose phase step divides the phase circle exactly repeats with
// that period: 1000 mHz at a 64 Hz sample rate steps a 1/64 turn per
// sample.
#[test]
fn oscillator_is_periodic_when_step_divides_the_circle() {
    let mut g = Graph {
        root: Node::Sine { phase: 0, freq_mhz: 1000, rate: 64 },
        stage: Stage::Split,
    };
    let (left, _) = g.render(192);
    for k in 0..128 {
        assert_eq!(left[k], left[k + 64]);
    }
    assert!(left.iter().any(|&s| s != 0));
}

// Resetting twice for the same rate renders the same output as resetting
// once.
#[test]
fn reset_is_idempotent() {
    let mut once = Synth::new();
    once.parameters.set_parameter(3, 250_000);
    let mut twice = Synth::new();
    twice.parameters.set_parameter(3, 250_000);
    once.set_sample_rate(48000);
    twice.set_sample_rate(48000);
    twice.set_sample_rate(48000);
    let a = play(&mut once, 2, 100).unwrap();
    let b = play(&mut twice, 2, 100).unwrap();
    assert_eq!(a.0, b.0);
    assert_eq!(a.1, b.1);
}

// The envelope holds its peak value at the onset instant and decays from
// there.
#[test]
fn envelope_peaks_at_onset() {
    let mut g = Graph {
        root: Node::Envelope { clock: 0, onset: 0, rate: 44100 },
        stage: Stage::Split,
    };
    let (left, _) = g.render(3);
    assert_eq!(left[0], AMP);
    assert!(left[1] <= left[0]);
    assert!(left[2] <= left[1]);
}

// End-to-end: a note-on at time zero stamps the onset tag with zero, and
// the first rendered block plays the envelope from its peak.
#[test]
fn note_on_at_time_zero_starts_envelope_at_peak() {
    let mut synth = Synth::new();
    synth.set_sample_rate(44100);
    synth.process_events(&vec![[0x90u8, 69, 100]]);
    assert_eq!(synth.last_onset, 0);
    let (left, _) = synth.process(2, 64).unwrap();
    assert_eq!(left.len(), 64);
    // The rebuilt voice carries the envelope at its onset.
    match &synth.graph.root {
        Node::Product(env, _) => match **env {
            Node::Envelope { onset, .. } => assert_eq!(onset, 0),
            _ => panic!("expected the envelope ahead of the voice"),
        },
        _ => panic!("expected a product at the root"),
    }
    assert!(left.iter().any(|&s| s != 0));
}

#[test]
fn wrong_channel_count_produces_nothing() {
    let mut synth = Synth::new();
    assert!(synth.process(1, 64).is_none());
    assert!(synth.process(3, 64).is_none());
    let (l, r) = synth.process(2, 0).unwrap();
    assert!(l.is_empty() && r.is_empty());
}

// Before any note-on the voice is disabled: a well-formed request is
// served with silence and the clock does not advance.
#[test]
fn disabled_voice_renders_silence() {
    let mut synth = Synth::new();
    synth.set_sample_rate(44100);
    let (left, right) = synth.process(2, 100).unwrap();
    assert_eq!(left, vec![0i64; 100]);
    assert_eq!(right, vec![0i64; 100]);
    assert_eq!(synth.time_samples, 0);
}

#[test]
fn enabled_voice_advances_clock_in_whole_blocks() {
    let mut synth = Synth::new();
    synth.set_sample_rate(44100);
    synth.process_events(&vec![[0x90u8, 69, 100]]);
    synth.process(2, 100).unwrap();
    // 100 samples are served from two 64-sample blocks.
    assert_eq!(synth.time_samples, 128);
}

// A pan write requests a rebuild; the next processed call installs a
// graph panned hard left, and the right channel falls silent.
#[test]
fn pan_edit_rebuilds_before_next_block() {
    let mut synth = Synth::new();
    synth.set_sample_rate(44100);
    synth.process_events(&vec![[0x90u8, 69, 100]]);
    synth.process(2, 64).unwrap();
    synth.parameters.set_parameter(1, 0);
    assert!(synth.parameters.dirty);
    let (left, right) = synth.process(2, 64).unwrap();
    assert!(!synth.parameters.dirty);
    assert_eq!(right, vec![0i64; 64]);
    assert!(left.iter().any(|&s| s != 0));
    match synth.graph.stage {
        Stage::Pan { pan } => assert_eq!(pan, 0),
        Stage::Split => panic!("expected a panned output stage"),
    }
}

// Out-of-range tag values pushed through the parameters are tolerated:
// the modulation level clamps to full scale.
#[test]
fn modulation_level_clamps() {
    let mut synth = Synth::new();
    synth.set_sample_rate(44100);
    synth.parameters.modulation = UNIT;
    synth.parameters.set_parameter(0, 2 * UNIT);
    assert_eq!(synth.parameters.modulation, UNIT);
}

// Interleave parameter edits (which request rebuilds) with renders: every
// render sees either the old graph or a whole freshly built one, every
// request is consumed by the next call, and the output never leaves full
// scale.
#[test]
fn interleaved_edits_and_renders_stay_sound() {
    let mut synth = Synth::new();
    synth.set_sample_rate(44100);
    synth.process_events(&vec![[0x90u8, 69, 100]]);
    for step in 0u32..20 {
        synth.parameters.set_parameter(1, (step * 50_000) % (UNIT + 1));
        assert!(synth.parameters.dirty);
        let (left, right) = synth.process(2, 48).unwrap();
        assert!(!synth.parameters.dirty);
        for s in left.iter().chain(right.iter()) {
            assert!(-AMP <= *s && *s <= AMP);
        }
        match synth.graph.stage {
            Stage::Pan { pan } => assert_eq!(pan, (step * 50_000) % (UNIT + 1)),
            Stage::Split => panic!("expected a panned output stage"),
        }
    }
}

#[test]
fn samples_stay_within_full_scale() {
    let mut synth = Synth::new();
    synth.set_sample_rate(44100);
    synth.parameters.set_parameter(3, 990_000);
    let (left, right) = play(&mut synth, 2, 500).unwrap();
    for s in left.iter().chain(right.iter()) {
        assert!(-AMP <= *s && *s <= AMP);
    }
}
