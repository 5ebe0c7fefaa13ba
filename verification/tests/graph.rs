use synth_core::graph::{Graph, Node, Stage, Tag};
use synth_core::{AMP, UNIT};

// A constant level renders exactly its fraction of full scale.
#[test]
fn level_renders_exact_fraction() {
    let mut g = Graph {
        root: Node::Level { value: UNIT / 2 },
        stage: Stage::Split,
    };
    let (left, right) = g.render(4);
    assert_eq!(left, vec![AMP / 2; 4]);
    assert_eq!(right, vec![AMP / 2; 4]);
}

// The pan stage scales the two channels with complementary linear gains.
#[test]
fn pan_splits_with_complementary_gains() {
    let mut g = Graph {
        root: Node::Level { value: UNIT },
        stage: Stage::Pan { pan: 250_000 },
    };
    let (left, right) = g.render(2);
    assert_eq!(left, vec![AMP * 3 / 4; 2]);
    assert_eq!(right, vec![AMP / 4; 2]);
}

// A pulse at one cycle per 64 samples with a quarter duty is high for
// exactly the first 16 samples of each cycle.
#[test]
fn pulse_duty_sets_high_fraction() {
    let mut g = Graph {
        root: Node::Pulse { phase: 0, freq_mhz: 1000, duty: 250_000, rate: 64 },
        stage: Stage::Split,
    };
    let (left, _) = g.render(64);
    for k in 0..64 {
        if k < 16 {
            assert_eq!(left[k], AMP);
        } else {
            assert_eq!(left[k], -AMP);
        }
    }
}

// The clipping sum saturates at full scale instead of wrapping.
#[test]
fn sum_clips_at_full_scale() {
    let mut g = Graph {
        root: Node::Sum(
            Box::new(Node::Level { value: UNIT }),
            Box::new(Node::Level { value: UNIT }),
        ),
        stage: Stage::Split,
    };
    let (left, _) = g.render(1);
    assert_eq!(left[0], AMP);
}

// The product treats full scale as unity gain.
#[test]
fn product_is_unity_at_full_scale() {
    let mut g = Graph {
        root: Node::Product(
            Box::new(Node::Level { value: UNIT }),
            Box::new(Node::Level { value: UNIT / 4 }),
        ),
        stage: Stage::Split,
    };
    let (left, _) = g.render(1);
    assert_eq!(left[0], AMP / 4);
}

// A tag push reaches every listening node and nothing else.
#[test]
fn tags_reach_their_nodes() {
    let mut g = Graph {
        root: Node::Sum(
            Box::new(Node::Sine { phase: 7, freq_mhz: 440_000, rate: 44_100 }),
            Box::new(Node::Level { value: 0 }),
        ),
        stage: Stage::Pan { pan: UNIT / 2 },
    };
    g.set_tag(Tag::Freq, 220_000);
    g.set_tag(Tag::Modulation, 900_000);
    g.set_tag(Tag::Pan, 100_000);
    match &g.root {
        Node::Sum(a, b) => {
            match **a {
                Node::Sine { phase, freq_mhz, rate } => {
                    assert_eq!(phase, 7);
                    assert_eq!(freq_mhz, 220_000);
                    assert_eq!(rate, 44_100);
                }
                _ => panic!("expected the oscillator on the left"),
            }
            match **b {
                Node::Level { value } => assert_eq!(value, 900_000),
                _ => panic!("expected the level on the right"),
            }
        }
        _ => panic!("expected a sum at the root"),
    }
    match g.stage {
        Stage::Pan { pan } => assert_eq!(pan, 100_000),
        Stage::Split => panic!("expected a panned stage"),
    }
    // Out-of-range tag values are clamped, not rejected.
    g.set_tag(Tag::Modulation, u64::MAX);
    match &g.root {
        Node::Sum(_, b) => match **b {
            Node::Level { value } => assert_eq!(value, UNIT),
            _ => panic!("expected the level on the right"),
        },
        _ => panic!("expected a sum at the root"),
    }
}

// Reset zeroes phases and clocks, re-derives rate-bound state, and keeps
// what carries over a rate change.
#[test]
fn reset_reinitializes_time_state() {
    let mut g = Graph {
        root: Node::Product(
            Box::new(Node::Sine { phase: 999, freq_mhz: 440_000, rate: 22_050 }),
            Box::new(Node::Envelope { clock: 555, onset: 44, rate: 22_050 }),
        ),
        stage: Stage::Split,
    };
    g.reset(48_000);
    match &g.root {
        Node::Product(a, b) => {
            match **a {
                Node::Sine { phase, freq_mhz, rate } => {
                    assert_eq!(phase, 0);
                    assert_eq!(freq_mhz, 440_000);
                    assert_eq!(rate, 48_000);
                }
                _ => panic!("expected the oscillator on the left"),
            }
            match **b {
                Node::Envelope { clock, onset, rate } => {
                    assert_eq!(clock, 0);
                    assert_eq!(onset, 0);
                    assert_eq!(rate, 48_000);
                }
                _ => panic!("expected the envelope on the right"),
            }
        }
        _ => panic!("expected a product at the root"),
    }
}
