use synth_core::rand_generator::{play, NoiseGen};
use synth_core::AMP;

// The noise stream is deterministic in its seed: the same seed renders
// the same buffers, and the generator really advances between calls.
#[test]
fn seeded_noise_is_reproducible() {
    let mut a = NoiseGen::with_seed(12345);
    let mut b = NoiseGen::with_seed(12345);
    let out_a = play(&mut a, 2, 64);
    let out_b = play(&mut b, 2, 64);
    assert_eq!(out_a.len(), 2);
    assert_eq!(out_a[0].len(), 64);
    assert_eq!(out_a, out_b);
    assert_eq!(a.state, b.state);
    // A second call continues the stream rather than repeating it.
    let out_a2 = play(&mut a, 2, 64);
    assert_ne!(out_a, out_a2);
}

#[test]
fn noise_channels_differ_and_stay_in_range() {
    let mut g = NoiseGen::with_seed(7);
    let out = play(&mut g, 2, 256);
    assert_ne!(out[0], out[1]);
    for chan in &out {
        for s in chan {
            assert!(-AMP <= *s && *s <= AMP);
        }
        assert!(chan.iter().any(|&s| s != 0));
    }
}

// The noise play mode serves any channel count, including none.
#[test]
fn noise_serves_any_channel_count() {
    let mut g = NoiseGen::with_seed(1);
    assert!(play(&mut g, 0, 16).is_empty());
    let out = play(&mut g, 5, 3);
    assert_eq!(out.len(), 5);
    for chan in &out {
        assert_eq!(chan.len(), 3);
    }
}

// A fresh generator draws its seed from the process's random source;
// its output still lies within full scale.
#[test]
fn fresh_generator_renders_in_range() {
    let mut g = NoiseGen::new();
    let out = play(&mut g, 1, 32);
    for s in &out[0] {
        assert!(-AMP <= *s && *s <= AMP);
    }
}
