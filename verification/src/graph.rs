//! The signal graph: a closed tree of primitive generators and
//! combinators, rendered one sample at a time.
//!
//! A graph is a deterministic function of its internal state and of the
//! tag values pushed into it between blocks. The contract of `render`
//! pins every produced sample: sample `k` of a node is `node_sample` of
//! the state the node had when rendering began, and rendering `n` samples
//! advances the node by exactly `n` ticks (`node_adv`).
//!
//! Primitives: a sine oscillator (frequency tag), a pulse oscillator
//! (frequency and duty tags), a linearly decaying envelope (onset tag),
//! a seeded uniform-noise generator, and a constant level (modulation
//! tag). Combinators: clipping sum, full-scale product, and a stereo
//! output stage that either duplicates the mono signal or pans it.

use vstd::prelude::*;
use vstd::arithmetic::div_mod::{
    lemma_add_mod_noop_right,
    lemma_mod_bound,
    lemma_small_mod,
};
use crate::{AMP, UNIT};
use crate::wave::{
    PHASE_MOD,
    sine_wave_spec,
    sine_wave,
    pulse_wave_spec,
    pulse_wave,
    decay_env_spec,
    decay_env,
    lemma_decay_env_range,
    sat_add64_spec,
    sat_add64,
    lcg_next_spec,
    lcg_iter_spec,
    lemma_lcg_iter_add,
    lcg_next,
    noise_sample_spec,
    noise_sample,
    scale_unit_spec,
    scale_unit,
    lemma_scale_unit_range,
    clip_spec,
    clip_add,
    mul_amp_spec,
    mul_amp,
    lemma_mul_amp_range,
    lemma_sine_range,
};

verus! {

/// A live input slot of a graph, refreshed between blocks. A tag a node
/// does not listen to leaves that node untouched.
#[derive(Clone, Copy, PartialEq, Eq, Structural, Debug)]
pub enum Tag {
    /// Oscillator frequency, in millihertz.
    Freq,
    /// Output level of `Level` nodes, in [0, UNIT].
    Modulation,
    /// Onset timestamp of the envelope, in samples since reset.
    NoteOn,
    /// Pulse duty amount, in [0, UNIT].
    Duty,
    /// Stereo pan position, in [0, UNIT]; UNIT/2 is center.
    Pan,
}

/// Phase advance per sample for a frequency in millihertz at the given
/// sample rate, reduced into the phase circle.
pub open spec fn step_for_spec(freq_mhz: int, rate: int) -> int {
    (freq_mhz * (PHASE_MOD as int) / (1000 * rate)) % (PHASE_MOD as int)
}

pub fn step_for(freq_mhz: u64, rate: u32) -> (r: u64)
    requires
        rate >= 1,
    ensures
        r == step_for_spec(freq_mhz as int, rate as int),
        r < PHASE_MOD,
{
    proof {
        lemma_mod_bound(
            (freq_mhz as int) * (PHASE_MOD as int) / (1000 * (rate as int)),
            PHASE_MOD as int,
        );
    }
    let denom: u128 = 1000u128 * (rate as u128);
    let raw: u128 = ((freq_mhz as u128) * (PHASE_MOD as u128)) / denom;
    (raw % (PHASE_MOD as u128)) as u64
}

/// One node of the signal graph.
pub enum Node {
    /// Sine oscillator: current phase, frequency in millihertz, sample
    /// rate.
    Sine { phase: u64, freq_mhz: u64, rate: u32 },
    /// Pulse oscillator: current phase, frequency in millihertz, duty
    /// amount in [0, UNIT], sample rate.
    Pulse { phase: u64, freq_mhz: u64, duty: u32, rate: u32 },
    /// Decaying envelope: sample clock since reset, onset timestamp in
    /// samples, sample rate (the decay lasts one second).
    Envelope { clock: u64, onset: u64, rate: u32 },
    /// Uniform noise from a seeded pseudo-random stream.
    Noise { state: u64 },
    /// Constant level in [0, UNIT] of full scale.
    Level { value: u32 },
    /// Mix of two signals, clipped at full scale.
    Sum(Box<Node>, Box<Node>),
    /// Product of two signals, with full scale as unity gain.
    Product(Box<Node>, Box<Node>),
}

/// Well-formedness of a node: phases reduced, rates nonzero, control
/// amounts in range.
pub open spec fn node_inv(n: Node) -> bool
    decreases n,
{
    match n {
        Node::Sine { phase, freq_mhz, rate } => phase < PHASE_MOD && rate >= 1,
        Node::Pulse { phase, freq_mhz, duty, rate } => phase < PHASE_MOD && duty <= UNIT && rate
            >= 1,
        Node::Envelope { clock, onset, rate } => rate >= 1,
        Node::Noise { state } => true,
        Node::Level { value } => value <= UNIT,
        Node::Sum(a, b) => node_inv(*a) && node_inv(*b),
        Node::Product(a, b) => node_inv(*a) && node_inv(*b),
    }
}

/// The sample this node produces `k` ticks from now, as a function of its
/// current state alone.
pub open spec fn node_sample(n: Node, k: nat) -> int
    decreases n,
{
    match n {
        Node::Sine { phase, freq_mhz, rate } => sine_wave_spec(
            (phase + k * step_for_spec(freq_mhz as int, rate as int)) % (PHASE_MOD as int),
        ),
        Node::Pulse { phase, freq_mhz, duty, rate } => pulse_wave_spec(
            (phase + k * step_for_spec(freq_mhz as int, rate as int)) % (PHASE_MOD as int),
            duty as int,
        ),
        Node::Envelope { clock, onset, rate } => decay_env_spec(
            sat_add64_spec(clock as int, k as int),
            onset as int,
            rate as int,
        ),
        Node::Noise { state } => noise_sample_spec(lcg_iter_spec(state as int, k + 1)),
        Node::Level { value } => scale_unit_spec(AMP as int, value as int),
        Node::Sum(a, b) => clip_spec(node_sample(*a, k) + node_sample(*b, k)),
        Node::Product(a, b) => mul_amp_spec(node_sample(*a, k), node_sample(*b, k)),
    }
}

/// The state of this node after it has produced `k` samples.
pub open spec fn node_adv(n: Node, k: nat) -> Node
    decreases n,
{
    match n {
        Node::Sine { phase, freq_mhz, rate } => Node::Sine {
            phase: ((phase + k * step_for_spec(freq_mhz as int, rate as int)) % (
            PHASE_MOD as int)) as u64,
            freq_mhz,
            rate,
        },
        Node::Pulse { phase, freq_mhz, duty, rate } => Node::Pulse {
            phase: ((phase + k * step_for_spec(freq_mhz as int, rate as int)) % (
            PHASE_MOD as int)) as u64,
            freq_mhz,
            duty,
            rate,
        },
        Node::Envelope { clock, onset, rate } => Node::Envelope {
            clock: sat_add64_spec(clock as int, k as int) as u64,
            onset,
            rate,
        },
        Node::Noise { state } => Node::Noise { state: lcg_iter_spec(state as int, k) as u64 },
        Node::Level { value } => Node::Level { value },
        Node::Sum(a, b) => Node::Sum(Box::new(node_adv(*a, k)), Box::new(node_adv(*b, k))),
        Node::Product(a, b) => Node::Product(Box::new(node_adv(*a, k)), Box::new(node_adv(*b, k))),
    }
}

/// Every sample of a well-formed node lies within full scale.
pub proof fn lemma_node_sample_range(n: Node, k: nat)
    requires
        node_inv(n),
    ensures
        -AMP <= node_sample(n, k) <= AMP,
    decreases n,
{
    match n {
        Node::Sine { phase, freq_mhz, rate } => {
            lemma_mod_bound(
                phase + k * step_for_spec(freq_mhz as int, rate as int),
                PHASE_MOD as int,
            );
            lemma_sine_range(
                (phase + k * step_for_spec(freq_mhz as int, rate as int)) % (PHASE_MOD as int),
            );
        }
        Node::Pulse { .. } => {}
        Node::Envelope { clock, onset, rate } => {
            lemma_decay_env_range(
                sat_add64_spec(clock as int, k as int),
                onset as int,
                rate as int,
            );
        }
        Node::Noise { state } => {
            lemma_mod_bound(lcg_iter_spec(state as int, k + 1), 2 * (AMP as int) + 1);
        }
        Node::Level { value } => {
            lemma_scale_unit_range(AMP as int, value as int);
        }
        Node::Sum(a, b) => {
            lemma_node_sample_range(*a, k);
            lemma_node_sample_range(*b, k);
        }
        Node::Product(a, b) => {
            lemma_node_sample_range(*a, k);
            lemma_node_sample_range(*b, k);
            lemma_mul_amp_range(node_sample(*a, k), node_sample(*b, k));
        }
    }
}

/// Advancing preserves well-formedness, and behaves like composition:
/// the node advanced `i` ticks produces at offset `j` the sample the
/// original node produces at offset `i + j`, and advancing twice is
/// advancing once by the sum.
pub proof fn lemma_node_adv(n: Node, i: nat, j: nat)
    ensures
        node_inv(n) ==> node_inv(node_adv(n, i)),
        node_sample(node_adv(n, i), j) == node_sample(n, i + j),
        node_adv(node_adv(n, i), j) == node_adv(n, i + j),
    decreases n,
{
    match n {
        Node::Sine { phase, freq_mhz, rate } => {
            let step = step_for_spec(freq_mhz as int, rate as int);
            lemma_phase_shift(phase as int, step, i, j);
        }
        Node::Pulse { phase, freq_mhz, duty, rate } => {
            let step = step_for_spec(freq_mhz as int, rate as int);
            lemma_phase_shift(phase as int, step, i, j);
        }
        Node::Envelope { clock, onset, rate } => {}
        Node::Noise { state } => {
            lemma_lcg_iter_add(state as int, i, j);
            lemma_lcg_iter_add(state as int, i, j + 1);
            lemma_mod_bound(state as int, 18446744073709551616int);
            if i > 0 {
                lemma_lcg_nonneg(state as int, i);
            }
        }
        Node::Level { value } => {}
        Node::Sum(a, b) => {
            lemma_node_adv(*a, i, j);
            lemma_node_adv(*b, i, j);
        }
        Node::Product(a, b) => {
            lemma_node_adv(*a, i, j);
            lemma_node_adv(*b, i, j);
        }
    }
}

/// Advancing by zero ticks changes nothing.
pub proof fn lemma_node_adv_zero(n: Node)
    requires
        node_inv(n),
    ensures
        node_adv(n, 0) == n,
    decreases n,
{
    match n {
        Node::Sine { phase, freq_mhz, rate } => {
            lemma_small_mod(phase as nat, PHASE_MOD as nat);
            assert(0 * step_for_spec(freq_mhz as int, rate as int) == 0);
        }
        Node::Pulse { phase, freq_mhz, duty, rate } => {
            lemma_small_mod(phase as nat, PHASE_MOD as nat);
            assert(0 * step_for_spec(freq_mhz as int, rate as int) == 0);
        }
        Node::Sum(a, b) => {
            lemma_node_adv_zero(*a);
            lemma_node_adv_zero(*b);
        }
        Node::Product(a, b) => {
            lemma_node_adv_zero(*a);
            lemma_node_adv_zero(*b);
        }
        _ => {}
    }
}

/// The iterated pseudo-random stream state fits a 64-bit word.
pub proof fn lemma_lcg_nonneg(s: int, k: nat)
    requires
        k >= 1,
    ensures
        0 <= lcg_iter_spec(s, k) < 18446744073709551616,
    decreases k,
{
    lemma_mod_bound(
        lcg_iter_spec(s, (k - 1) as nat) * 6364136223846793005 + 1442695040888963407,
        18446744073709551616int,
    );
}

/// Phase accumulation composes: advancing the reduced phase `i` steps and
/// reading `j` steps further equals reading `i + j` steps from the start.
proof fn lemma_phase_shift(phase: int, step: int, i: nat, j: nat)
    requires
        0 <= phase,
        0 <= step,
    ensures
        ((phase + i * step) % (PHASE_MOD as int) + j * step) % (PHASE_MOD as int) == (phase + (i
            + j) * step) % (PHASE_MOD as int),
        0 <= (phase + i * step) % (PHASE_MOD as int) < PHASE_MOD,
{
    let m = PHASE_MOD as int;
    lemma_mod_bound(phase + i * step, m);
    lemma_add_mod_noop_right(j * step, phase + i * step, m);
    assert((i + j) * step == i * step + j * step) by (nonlinear_arith);
}

/// Render one sample and advance the node one tick.
#[verifier::rlimit(50)]
pub fn tick_node(node: Node) -> (r: (Node, i64))
    requires
        node_inv(node),
    ensures
        node_inv(r.0),
        r.0 == node_adv(node, 1),
        r.1 == node_sample(node, 0),
        -AMP <= r.1 <= AMP,
    decreases node,
{
    match node {
        Node::Sine { phase, freq_mhz, rate } => {
            let step = step_for(freq_mhz, rate);
            let s = sine_wave(phase);
            let phase2 = (phase + step) % PHASE_MOD;
            proof {
                let step_s = step_for_spec(freq_mhz as int, rate as int);
                lemma_small_mod(phase as nat, PHASE_MOD as nat);
                assert(0 * step_s == 0);
                assert(1 * step_s == step_s);
                assert(node_sample(node, 0) == sine_wave_spec(phase as int));
                assert(node_adv(node, 1) == (Node::Sine {
                    phase: ((phase + step_s) % (PHASE_MOD as int)) as u64,
                    freq_mhz,
                    rate,
                }));
            }
            (Node::Sine { phase: phase2, freq_mhz, rate }, s)
        }
        Node::Pulse { phase, freq_mhz, duty, rate } => {
            let step = step_for(freq_mhz, rate);
            let s = pulse_wave(phase, duty);
            let phase2 = (phase + step) % PHASE_MOD;
            proof {
                let step_s = step_for_spec(freq_mhz as int, rate as int);
                lemma_small_mod(phase as nat, PHASE_MOD as nat);
                assert(0 * step_s == 0);
                assert(1 * step_s == step_s);
                assert(node_sample(node, 0) == pulse_wave_spec(phase as int, duty as int));
                assert(node_adv(node, 1) == (Node::Pulse {
                    phase: ((phase + step_s) % (PHASE_MOD as int)) as u64,
                    freq_mhz,
                    duty,
                    rate,
                }));
            }
            (Node::Pulse { phase: phase2, freq_mhz, duty, rate }, s)
        }
        Node::Envelope { clock, onset, rate } => {
            let s = decay_env(clock, onset, rate as u64);
            let clock2 = sat_add64(clock, 1);
            proof {
                assert(node_sample(node, 0) == decay_env_spec(
                    sat_add64_spec(clock as int, 0),
                    onset as int,
                    rate as int,
                ));
            }
            (Node::Envelope { clock: clock2, onset, rate }, s)
        }
        Node::Noise { state } => {
            let state2 = lcg_next(state);
            let s = noise_sample(state2);
            proof {
                assert(lcg_iter_spec(state as int, 0) == state as int);
                assert(lcg_iter_spec(state as int, 1) == lcg_next_spec(state as int));
                assert(node_sample(node, 0) == noise_sample_spec(lcg_next_spec(state as int)));
            }
            (Node::Noise { state: state2 }, s)
        }
        Node::Level { value } => {
            let s = scale_unit(AMP, value);
            proof {
                assert(node_sample(node, 0) == scale_unit_spec(AMP as int, value as int));
            }
            (Node::Level { value }, s)
        }
        Node::Sum(a, b) => {
            let (na, sa) = tick_node(*a);
            let (nb, sb) = tick_node(*b);
            (Node::Sum(Box::new(na), Box::new(nb)), clip_add(sa, sb))
        }
        Node::Product(a, b) => {
            let (na, sa) = tick_node(*a);
            let (nb, sb) = tick_node(*b);
            (Node::Product(Box::new(na), Box::new(nb)), mul_amp(sa, sb))
        }
    }
}

/// Clamp a tag value to a control amount in [0, UNIT].
pub open spec fn clamp_tag(value: int) -> int {
    if value > UNIT {
        UNIT as int
    } else {
        value
    }
}

/// The node after a tag value has been pushed: each primitive takes the
/// tags it listens to, every other node is untouched.
pub open spec fn node_set_tag(n: Node, tag: Tag, value: u64) -> Node
    decreases n,
{
    match n {
        Node::Sine { phase, freq_mhz, rate } => if tag is Freq {
            Node::Sine { phase, freq_mhz: value, rate }
        } else {
            n
        },
        Node::Pulse { phase, freq_mhz, duty, rate } => if tag is Freq {
            Node::Pulse { phase, freq_mhz: value, duty, rate }
        } else if tag is Duty {
            Node::Pulse { phase, freq_mhz, duty: clamp_tag(value as int) as u32, rate }
        } else {
            n
        },
        Node::Envelope { clock, onset, rate } => if tag is NoteOn {
            Node::Envelope { clock, onset: value, rate }
        } else {
            n
        },
        Node::Noise { state } => n,
        Node::Level { value: v } => if tag is Modulation {
            Node::Level { value: clamp_tag(value as int) as u32 }
        } else {
            n
        },
        Node::Sum(a, b) => Node::Sum(
            Box::new(node_set_tag(*a, tag, value)),
            Box::new(node_set_tag(*b, tag, value)),
        ),
        Node::Product(a, b) => Node::Product(
            Box::new(node_set_tag(*a, tag, value)),
            Box::new(node_set_tag(*b, tag, value)),
        ),
    }
}

/// The node after a reset for a new sample rate: phases and clocks return
/// to zero and every time-step-dependent quantity is re-derived from the
/// new rate; the noise stream and control levels carry over.
pub open spec fn node_reset(n: Node, rate: u32) -> Node
    decreases n,
{
    match n {
        Node::Sine { phase, freq_mhz, rate: _ } => Node::Sine { phase: 0, freq_mhz, rate },
        Node::Pulse { phase, freq_mhz, duty, rate: _ } => Node::Pulse {
            phase: 0,
            freq_mhz,
            duty,
            rate,
        },
        Node::Envelope { clock, onset, rate: _ } => Node::Envelope { clock: 0, onset: 0, rate },
        Node::Noise { state } => n,
        Node::Level { value } => n,
        Node::Sum(a, b) => Node::Sum(
            Box::new(node_reset(*a, rate)),
            Box::new(node_reset(*b, rate)),
        ),
        Node::Product(a, b) => Node::Product(
            Box::new(node_reset(*a, rate)),
            Box::new(node_reset(*b, rate)),
        ),
    }
}

/// Pushing a tag keeps a node well-formed.
pub proof fn lemma_node_set_tag_inv(n: Node, tag: Tag, value: u64)
    requires
        node_inv(n),
    ensures
        node_inv(node_set_tag(n, tag, value)),
    decreases n,
{
    match n {
        Node::Sum(a, b) => {
            lemma_node_set_tag_inv(*a, tag, value);
            lemma_node_set_tag_inv(*b, tag, value);
        }
        Node::Product(a, b) => {
            lemma_node_set_tag_inv(*a, tag, value);
            lemma_node_set_tag_inv(*b, tag, value);
        }
        _ => {}
    }
}

/// A node already carries a tag value when pushing it again would change
/// nothing.
pub open spec fn has_tag(n: Node, tag: Tag, value: u64) -> bool {
    node_set_tag(n, tag, value) == n
}

/// Pushing a tag leaves the tree carrying that tag value.
pub proof fn lemma_set_tag_idempotent(n: Node, tag: Tag, value: u64)
    ensures
        has_tag(node_set_tag(n, tag, value), tag, value),
    decreases n,
{
    match n {
        Node::Sum(a, b) => {
            lemma_set_tag_idempotent(*a, tag, value);
            lemma_set_tag_idempotent(*b, tag, value);
        }
        Node::Product(a, b) => {
            lemma_set_tag_idempotent(*a, tag, value);
            lemma_set_tag_idempotent(*b, tag, value);
        }
        _ => {}
    }
}

/// Pushing one tag does not disturb the value another tag carries.
pub proof fn lemma_set_tag_independent(n: Node, tag: Tag, value: u64, other: Tag, other_value: u64)
    requires
        tag != other,
        has_tag(n, tag, value),
    ensures
        has_tag(node_set_tag(n, other, other_value), tag, value),
    decreases n,
{
    match n {
        Node::Sum(a, b) => {
            lemma_set_tag_independent(*a, tag, value, other, other_value);
            lemma_set_tag_independent(*b, tag, value, other, other_value);
        }
        Node::Product(a, b) => {
            lemma_set_tag_independent(*a, tag, value, other, other_value);
            lemma_set_tag_independent(*b, tag, value, other, other_value);
        }
        _ => {}
    }
}

/// Rendering does not disturb the value a tag carries.
pub proof fn lemma_set_tag_adv(n: Node, tag: Tag, value: u64, k: nat)
    requires
        has_tag(n, tag, value),
    ensures
        has_tag(node_adv(n, k), tag, value),
    decreases n,
{
    match n {
        Node::Sum(a, b) => {
            lemma_set_tag_adv(*a, tag, value, k);
            lemma_set_tag_adv(*b, tag, value, k);
        }
        Node::Product(a, b) => {
            lemma_set_tag_adv(*a, tag, value, k);
            lemma_set_tag_adv(*b, tag, value, k);
        }
        _ => {}
    }
}

/// Resetting establishes well-formedness for the new rate, whatever state
/// the node was in.
pub proof fn lemma_node_reset_inv(n: Node, rate: u32)
    requires
        rate >= 1,
    ensures
        node_inv(n) ==> node_inv(node_reset(n, rate)),
    decreases n,
{
    match n {
        Node::Sum(a, b) => {
            lemma_node_reset_inv(*a, rate);
            lemma_node_reset_inv(*b, rate);
        }
        Node::Product(a, b) => {
            lemma_node_reset_inv(*a, rate);
            lemma_node_reset_inv(*b, rate);
        }
        _ => {}
    }
}

/// Law: resetting for a rate is idempotent. A second reset for the same
/// rate leaves the node, and hence every sample it will produce,
/// unchanged.
pub proof fn lemma_reset_idempotent(n: Node, rate: u32)
    ensures
        node_reset(node_reset(n, rate), rate) == node_reset(n, rate),
    decreases n,
{
    match n {
        Node::Sum(a, b) => {
            lemma_reset_idempotent(*a, rate);
            lemma_reset_idempotent(*b, rate);
        }
        Node::Product(a, b) => {
            lemma_reset_idempotent(*a, rate);
            lemma_reset_idempotent(*b, rate);
        }
        _ => {}
    }
}

/// Law: an oscillator is periodic. If `p` phase steps wind an exact
/// number of full turns around the phase circle, then the waveform
/// repeats with period `p` samples: with a step derived from frequency
/// `f` mHz at rate `r`, that holds of every `p` with
/// `p * (f * PHASE_MOD / (1000 * r))` divisible by `PHASE_MOD`, in
/// particular of multiples of `PHASE_MOD / gcd(step, PHASE_MOD)`.
pub proof fn lemma_oscillator_periodic(n: Node, k: nat, p: nat)
    requires
        n matches Node::Sine { phase, freq_mhz, rate } ==> (p * step_for_spec(
            freq_mhz as int,
            rate as int,
        )) % (PHASE_MOD as int) == 0,
        n matches Node::Pulse { phase, freq_mhz, duty, rate } ==> (p * step_for_spec(
            freq_mhz as int,
            rate as int,
        )) % (PHASE_MOD as int) == 0,
        n is Sine || n is Pulse,
    ensures
        node_sample(n, k + p) == node_sample(n, k),
{
    let m = PHASE_MOD as int;
    match n {
        Node::Sine { phase, freq_mhz, rate } => {
            lemma_phase_period(phase as int, step_for_spec(freq_mhz as int, rate as int), k, p);
        }
        Node::Pulse { phase, freq_mhz, duty, rate } => {
            lemma_phase_period(phase as int, step_for_spec(freq_mhz as int, rate as int), k, p);
        }
        _ => {}
    }
}

/// Winding an exact number of turns does not move the reduced phase.
proof fn lemma_phase_period(phase: int, step: int, k: nat, p: nat)
    requires
        0 <= phase,
        0 <= step,
        (p * step) % (PHASE_MOD as int) == 0,
    ensures
        (phase + (k + p) * step) % (PHASE_MOD as int) == (phase + k * step) % (PHASE_MOD as int),
{
    let m = PHASE_MOD as int;
    vstd::arithmetic::div_mod::lemma_fundamental_div_mod(p * step, m);
    let q = (p * step) / m;
    assert(p * step == m * q);
    assert((k + p) * step == k * step + p * step) by (nonlinear_arith);
    vstd::arithmetic::div_mod::lemma_mod_multiples_vanish(q, phase + k * step, m);
    assert(m * q + (phase + k * step) == phase + (k + p) * step);
}

/// Push a tag value through a whole tree.
pub fn set_tag_node(node: Node, tag: Tag, value: u64) -> (r: Node)
    ensures
        r == node_set_tag(node, tag, value),
    decreases node,
{
    match node {
        Node::Sine { phase, freq_mhz, rate } => {
            match tag {
                Tag::Freq => Node::Sine { phase, freq_mhz: value, rate },
                _ => Node::Sine { phase, freq_mhz, rate },
            }
        }
        Node::Pulse { phase, freq_mhz, duty, rate } => {
            match tag {
                Tag::Freq => Node::Pulse { phase, freq_mhz: value, duty, rate },
                Tag::Duty => {
                    let clamped: u32 = if value > UNIT as u64 {
                        UNIT
                    } else {
                        value as u32
                    };
                    Node::Pulse { phase, freq_mhz, duty: clamped, rate }
                }
                _ => Node::Pulse { phase, freq_mhz, duty, rate },
            }
        }
        Node::Envelope { clock, onset, rate } => {
            match tag {
                Tag::NoteOn => Node::Envelope { clock, onset: value, rate },
                _ => Node::Envelope { clock, onset, rate },
            }
        }
        Node::Noise { state } => Node::Noise { state },
        Node::Level { value: v } => {
            match tag {
                Tag::Modulation => {
                    let clamped: u32 = if value > UNIT as u64 {
                        UNIT
                    } else {
                        value as u32
                    };
                    Node::Level { value: clamped }
                }
                _ => Node::Level { value: v },
            }
        }
        Node::Sum(a, b) => Node::Sum(
            Box::new(set_tag_node(*a, tag, value)),
            Box::new(set_tag_node(*b, tag, value)),
        ),
        Node::Product(a, b) => Node::Product(
            Box::new(set_tag_node(*a, tag, value)),
            Box::new(set_tag_node(*b, tag, value)),
        ),
    }
}

/// Reset a whole tree for a new sample rate.
pub fn reset_node(node: Node, rate: u32) -> (r: Node)
    requires
        rate >= 1,
    ensures
        r == node_reset(node, rate),
    decreases node,
{
    match node {
        Node::Sine { phase, freq_mhz, rate: _ } => Node::Sine { phase: 0, freq_mhz, rate },
        Node::Pulse { phase, freq_mhz, duty, rate: _ } => Node::Pulse {
            phase: 0,
            freq_mhz,
            duty,
            rate,
        },
        Node::Envelope { clock, onset, rate: _ } => Node::Envelope { clock: 0, onset: 0, rate },
        Node::Noise { state } => Node::Noise { state },
        Node::Level { value } => Node::Level { value },
        Node::Sum(a, b) => Node::Sum(
            Box::new(reset_node(*a, rate)),
            Box::new(reset_node(*b, rate)),
        ),
        Node::Product(a, b) => Node::Product(
            Box::new(reset_node(*a, rate)),
            Box::new(reset_node(*b, rate)),
        ),
    }
}

/// The stereo output stage: either duplicate the mono signal to both
/// channels, or pan it with a position in [0, UNIT] (UNIT/2 is center,
/// 0 is hard left), with linear complementary gains.
#[derive(Clone, Copy, PartialEq, Eq, Structural, Debug)]
pub enum Stage {
    Split,
    Pan { pan: u32 },
}

pub open spec fn stage_inv(st: Stage) -> bool {
    match st {
        Stage::Split => true,
        Stage::Pan { pan } => pan <= UNIT,
    }
}

/// Left-channel sample produced by the output stage from a mono sample.
pub open spec fn stage_left_spec(st: Stage, s: int) -> int {
    match st {
        Stage::Split => s,
        Stage::Pan { pan } => scale_unit_spec(s, UNIT - pan),
    }
}

/// Right-channel sample produced by the output stage from a mono sample.
pub open spec fn stage_right_spec(st: Stage, s: int) -> int {
    match st {
        Stage::Split => s,
        Stage::Pan { pan } => scale_unit_spec(s, pan as int),
    }
}

/// The output stage after a tag push: only a pan stage listens, and only
/// to the pan tag.
pub open spec fn stage_set_tag(st: Stage, tag: Tag, value: u64) -> Stage {
    match st {
        Stage::Pan { pan } => if tag is Pan {
            Stage::Pan { pan: clamp_tag(value as int) as u32 }
        } else {
            st
        },
        Stage::Split => st,
    }
}

/// A renderable signal graph: a mono tree and a stereo output stage.
pub struct Graph {
    pub root: Node,
    pub stage: Stage,
}

impl Graph {
    pub open spec fn wf(self) -> bool {
        node_inv(self.root) && stage_inv(self.stage)
    }

    /// Render exactly `n` samples per channel. Sample `k` of each channel
    /// is the output stage applied to sample `k` of the tree as it stood
    /// on entry, and the tree ends advanced by exactly `n` ticks.
    pub fn render(&mut self, n: usize) -> (out: (Vec<i64>, Vec<i64>))
        requires
            old(self).wf(),
        ensures
            final(self).wf(),
            final(self).root == node_adv(old(self).root, n as nat),
            final(self).stage == old(self).stage,
            out.0@.len() == n,
            out.1@.len() == n,
            forall|k: int|
                0 <= k < n ==> out.0@[k] == stage_left_spec(
                    old(self).stage,
                    node_sample(old(self).root, k as nat),
                ) && -AMP <= out.0@[k] <= AMP,
            forall|k: int|
                0 <= k < n ==> out.1@[k] == stage_right_spec(
                    old(self).stage,
                    node_sample(old(self).root, k as nat),
                ) && -AMP <= out.1@[k] <= AMP,
    {
        let ghost g0 = *old(self);
        proof {
            lemma_node_adv_zero(g0.root);
        }
        let mut root = Node::Level { value: 0 };
        core::mem::swap(&mut root, &mut self.root);
        let mut left: Vec<i64> = Vec::new();
        let mut right: Vec<i64> = Vec::new();
        let mut i: usize = 0;
        while i < n
            invariant
                i <= n,
                node_inv(root),
                root == node_adv(g0.root, i as nat),
                node_inv(g0.root),
                stage_inv(g0.stage),
                self.stage == g0.stage,
                left@.len() == i,
                right@.len() == i,
                forall|k: int|
                    0 <= k < i ==> left@[k] == stage_left_spec(
                        g0.stage,
                        node_sample(g0.root, k as nat),
                    ) && -AMP <= left@[k] <= AMP,
                forall|k: int|
                    0 <= k < i ==> right@[k] == stage_right_spec(
                        g0.stage,
                        node_sample(g0.root, k as nat),
                    ) && -AMP <= right@[k] <= AMP,
            decreases n - i,
        {
            let (root2, s) = tick_node(root);
            proof {
                lemma_node_adv(g0.root, i as nat, 0);
                lemma_node_adv(g0.root, i as nat, 1);
                assert(s == node_sample(g0.root, i as nat));
                assert(root2 == node_adv(g0.root, (i + 1) as nat));
            }
            root = root2;
            let (l, r) = match self.stage {
                Stage::Split => (s, s),
                Stage::Pan { pan } => (scale_unit(s, UNIT - pan), scale_unit(s, pan)),
            };
            left.push(l);
            right.push(r);
            i = i + 1;
        }
        self.root = root;
        (left, right)
    }

    /// Push one tag value into the graph: every listening node takes it,
    /// the others are untouched, and no oscillator phase moves.
    pub fn set_tag(&mut self, tag: Tag, value: u64)
        requires
            old(self).wf(),
        ensures
            final(self).wf(),
            final(self).root == node_set_tag(old(self).root, tag, value),
            final(self).stage == stage_set_tag(old(self).stage, tag, value),
    {
        proof {
            lemma_node_set_tag_inv(old(self).root, tag, value);
        }
        let mut root = Node::Level { value: 0 };
        core::mem::swap(&mut root, &mut self.root);
        self.root = set_tag_node(root, tag, value);
        if let Tag::Pan = tag {
            match self.stage {
                Stage::Pan { pan } => {
                    let clamped: u32 = if value > UNIT as u64 {
                        UNIT
                    } else {
                        value as u32
                    };
                    self.stage = Stage::Pan { pan: clamped };
                }
                Stage::Split => {}
            }
        }
    }

    /// Reset the graph for a new sample rate: all phases and clocks back
    /// to zero, all rate-derived state re-derived. Must be called before
    /// the first render after the host reports a rate change.
    pub fn reset(&mut self, rate: u32)
        requires
            rate >= 1,
            old(self).wf(),
        ensures
            final(self).wf(),
            final(self).root == node_reset(old(self).root, rate),
            final(self).stage == old(self).stage,
    {
        proof {
            lemma_node_reset_inv(old(self).root, rate);
        }
        let mut root = Node::Level { value: 0 };
        core::mem::swap(&mut root, &mut self.root);
        self.root = reset_node(root, rate);
    }
}

} // verus!
