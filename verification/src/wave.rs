//! Fixed-point waveform arithmetic.
//!
//! Oscillator phase runs over a circle of `PHASE_MOD` ticks, samples lie in
//! [-AMP, AMP], and control amounts lie in [0, UNIT]. The sine shape is a
//! piecewise parabola: a smooth arch over the first half of the circle and
//! its mirror image below zero over the second half, zero at the start of
//! each half. All operations are exact integer arithmetic, so a graph is a
//! deterministic function of its state and its tag values.

use vstd::prelude::*;
use vstd::arithmetic::div_mod::{
    lemma_fundamental_div_mod,
    lemma_div_is_ordered,
    lemma_div_multiples_vanish,
    lemma_div_nonincreasing,
    lemma_div_pos_is_pos,
    lemma_mod_bound,
};
use vstd::arithmetic::mul::{lemma_mul_upper_bound, lemma_mul_inequality};
use crate::{AMP, UNIT};

verus! {

/// Number of phase ticks in one full cycle of an oscillator.
pub const PHASE_MOD: u64 = 4294967296;

/// Half a cycle.
pub const PHASE_HALF: u64 = 2147483648;

/// Divisor that maps a half-cycle phase offset to the parabola's operand
/// range.
pub const ARCH_DOWN: u64 = 2048;

/// Divisor that maps the parabola's raw product back to sample scale.
pub const ARCH_SCALE: u64 = 262144;

/// The arch: a parabola over half a cycle, zero at both ends, peaking at
/// `AMP` in the middle.
pub open spec fn arch_spec(x: int) -> int {
    ((x / (ARCH_DOWN as int)) * ((PHASE_HALF - x) / (ARCH_DOWN as int))) / (ARCH_SCALE as int)
}

/// The sine shape over one full cycle of phase: the arch, then its mirror
/// image below zero.
pub open spec fn sine_wave_spec(p: int) -> int {
    if p < PHASE_HALF {
        arch_spec(p)
    } else {
        -arch_spec(p - (PHASE_HALF as int))
    }
}

/// The arch stays within [0, AMP].
pub proof fn lemma_arch_range(x: int)
    requires
        0 <= x < PHASE_HALF,
    ensures
        0 <= arch_spec(x) <= AMP,
{
    let d = ARCH_DOWN as int;
    let a = x / d;
    let b = ((PHASE_HALF as int) - x) / d;
    lemma_fundamental_div_mod(x, d);
    lemma_fundamental_div_mod((PHASE_HALF as int) - x, d);
    lemma_div_pos_is_pos(x, d);
    lemma_div_pos_is_pos((PHASE_HALF as int) - x, d);
    assert(d * a <= x);
    assert(d * b <= (PHASE_HALF as int) - x);
    assert(d * (a + b) <= PHASE_HALF as int);
    assert(a + b <= 1048576);
    assert(4 * (a * b) <= (a + b) * (a + b)) by (nonlinear_arith);
    assert((a + b) * (a + b) <= 1048576 * 1048576) by (nonlinear_arith)
        requires
            0 <= a + b <= 1048576,
    ;
    assert(a * b <= 274877906944);
    lemma_div_is_ordered(a * b, 274877906944, ARCH_SCALE as int);
    lemma_div_multiples_vanish(1048576, ARCH_SCALE as int);
    assert((274877906944int) / (ARCH_SCALE as int) == 1048576);
    vstd::arithmetic::mul::lemma_mul_nonnegative(a, b);
    lemma_div_pos_is_pos(a * b, ARCH_SCALE as int);
}

/// A sine sample stays within [-AMP, AMP].
pub proof fn lemma_sine_range(p: int)
    requires
        0 <= p < PHASE_MOD,
    ensures
        -AMP <= sine_wave_spec(p) <= AMP,
{
    if p < PHASE_HALF {
        lemma_arch_range(p);
    } else {
        lemma_arch_range(p - (PHASE_HALF as int));
    }
}

/// The arch over half a cycle, executable.
fn arch(x: u64) -> (r: u64)
    requires
        x < PHASE_HALF,
    ensures
        r == arch_spec(x as int),
        r <= AMP,
{
    proof {
        lemma_arch_range(x as int);
        lemma_div_nonincreasing(x as int, ARCH_DOWN as int);
        lemma_div_nonincreasing((PHASE_HALF - x) as int, ARCH_DOWN as int);
        lemma_mul_upper_bound((x as int) / (ARCH_DOWN as int), PHASE_HALF as int, ((PHASE_HALF
            - x) as int) / (ARCH_DOWN as int), PHASE_HALF as int);
        assert((2147483648int) * 2147483648 == 4611686018427387904);
    }
    let a = x / ARCH_DOWN;
    let b = (PHASE_HALF - x) / ARCH_DOWN;
    (a * b) / ARCH_SCALE
}

/// One sine sample at the given phase.
pub fn sine_wave(p: u64) -> (s: i64)
    requires
        p < PHASE_MOD,
    ensures
        s == sine_wave_spec(p as int),
        -AMP <= s <= AMP,
{
    if p < PHASE_HALF {
        arch(p) as i64
    } else {
        -(arch(p - PHASE_HALF) as i64)
    }
}

/// Phase threshold below which a pulse wave is high, for a duty amount in
/// [0, UNIT].
pub open spec fn duty_threshold_spec(duty: int) -> int {
    duty * (PHASE_MOD as int) / (UNIT as int)
}

/// The pulse shape: full scale while the phase is below the duty
/// threshold, negative full scale after it.
pub open spec fn pulse_wave_spec(p: int, duty: int) -> int {
    if p < duty_threshold_spec(duty) {
        AMP as int
    } else {
        -(AMP as int)
    }
}

/// One pulse sample at the given phase, for a duty amount in [0, UNIT].
pub fn pulse_wave(p: u64, duty: u32) -> (s: i64)
    requires
        p < PHASE_MOD,
        duty <= UNIT,
    ensures
        s == pulse_wave_spec(p as int, duty as int),
        -AMP <= s <= AMP,
{
    let threshold = (duty as u64) * PHASE_MOD / (UNIT as u64);
    if p < threshold {
        AMP
    } else {
        -AMP
    }
}

/// Saturating 64-bit addition: the clock arithmetic of the envelope, which
/// must never wrap however long the instrument runs.
pub open spec fn sat_add64_spec(a: int, b: int) -> int {
    if a + b > u64::MAX {
        u64::MAX as int
    } else {
        a + b
    }
}

pub fn sat_add64(a: u64, b: u64) -> (r: u64)
    ensures
        r == sat_add64_spec(a as int, b as int),
{
    if b > u64::MAX - a {
        u64::MAX
    } else {
        a + b
    }
}

/// The envelope curve: full scale at the onset instant, decaying linearly
/// to silence `decay_len` samples later, and silent from then on. A clock
/// value before the onset holds the peak, so an onset stamped for the
/// current block starts exactly at the peak.
pub open spec fn decay_env_spec(clock: int, onset: int, decay_len: int) -> int {
    let elapsed = if clock <= onset {
        0
    } else {
        clock - onset
    };
    if elapsed >= decay_len {
        0
    } else {
        (AMP as int) * (decay_len - elapsed) / decay_len
    }
}

/// The envelope stays within [0, AMP], and holds exactly AMP at (or
/// before) the onset instant.
pub proof fn lemma_decay_env_range(clock: int, onset: int, decay_len: int)
    requires
        decay_len >= 1,
    ensures
        0 <= decay_env_spec(clock, onset, decay_len) <= AMP,
        clock <= onset ==> decay_env_spec(clock, onset, decay_len) == AMP,
{
    let elapsed = if clock <= onset {
        0int
    } else {
        clock - onset
    };
    if elapsed < decay_len {
        let num = (AMP as int) * (decay_len - elapsed);
        lemma_mul_inequality(decay_len - elapsed, decay_len, AMP as int);
        assert(num <= (AMP as int) * decay_len);
        lemma_div_is_ordered(num, (AMP as int) * decay_len, decay_len);
        lemma_div_multiples_vanish(AMP as int, decay_len);
        vstd::arithmetic::mul::lemma_mul_nonnegative(AMP as int, decay_len - elapsed);
        lemma_div_pos_is_pos(num, decay_len);
    }
}

/// One envelope sample.
pub fn decay_env(clock: u64, onset: u64, decay_len: u64) -> (s: i64)
    requires
        decay_len >= 1,
        decay_len <= u32::MAX,
    ensures
        s == decay_env_spec(clock as int, onset as int, decay_len as int),
        0 <= s <= AMP,
{
    proof {
        lemma_decay_env_range(clock as int, onset as int, decay_len as int);
    }
    let elapsed = if clock <= onset {
        0u64
    } else {
        clock - onset
    };
    if elapsed >= decay_len {
        0
    } else {
        (((AMP as u64) * (decay_len - elapsed)) / decay_len) as i64
    }
}

/// One step of the pseudo-random stream feeding the noise generator: a
/// 64-bit linear congruential generator.
pub open spec fn lcg_next_spec(s: int) -> int {
    (s * 6364136223846793005 + 1442695040888963407) % 18446744073709551616
}

/// The stream state after `k` steps.
pub open spec fn lcg_iter_spec(s: int, k: nat) -> int
    decreases k,
{
    if k == 0 {
        s
    } else {
        lcg_next_spec(lcg_iter_spec(s, (k - 1) as nat))
    }
}

/// Stepping the stream `i` steps and then `j` steps is stepping it
/// `i + j` steps.
pub proof fn lemma_lcg_iter_add(s: int, i: nat, j: nat)
    ensures
        lcg_iter_spec(lcg_iter_spec(s, i), j) == lcg_iter_spec(s, i + j),
    decreases j,
{
    if j > 0 {
        lemma_lcg_iter_add(s, i, (j - 1) as nat);
    }
}

pub fn lcg_next(s: u64) -> (r: u64)
    ensures
        r == lcg_next_spec(s as int),
{
    let wide: u128 = (s as u128) * 6364136223846793005 + 1442695040888963407;
    (wide % 18446744073709551616u128) as u64
}

/// The noise shape: fold a stream state into a sample in [-AMP, AMP].
pub open spec fn noise_sample_spec(s: int) -> int {
    s % (2 * (AMP as int) + 1) - (AMP as int)
}

pub fn noise_sample(s: u64) -> (r: i64)
    ensures
        r == noise_sample_spec(s as int),
        -AMP <= r <= AMP,
{
    proof {
        lemma_mod_bound(s as int, 2 * (AMP as int) + 1);
    }
    ((s % 2097153) as i64) - AMP
}

/// Scale a sample by a gain amount in [0, UNIT], rounding the magnitude
/// down: the panning and level arithmetic.
pub open spec fn scale_unit_spec(s: int, g: int) -> int {
    if s >= 0 {
        s * g / (UNIT as int)
    } else {
        -((-s) * g / (UNIT as int))
    }
}

/// Scaling by a unit gain never grows a sample's magnitude.
pub proof fn lemma_scale_unit_range(s: int, g: int)
    requires
        -AMP <= s <= AMP,
        0 <= g <= UNIT,
    ensures
        -AMP <= scale_unit_spec(s, g) <= AMP,
        s >= 0 ==> 0 <= scale_unit_spec(s, g) <= s,
        s < 0 ==> s <= scale_unit_spec(s, g) <= 0,
{
    let m = if s >= 0 {
        s
    } else {
        -s
    };
    lemma_mul_inequality(g, UNIT as int, m);
    assert(m * g <= m * (UNIT as int)) by (nonlinear_arith)
        requires
            g <= UNIT as int,
            m >= 0,
    ;
    lemma_div_is_ordered(m * g, m * (UNIT as int), UNIT as int);
    lemma_div_multiples_vanish(m, UNIT as int);
    vstd::arithmetic::mul::lemma_mul_nonnegative(m, g);
    lemma_div_pos_is_pos(m * g, UNIT as int);
}

pub fn scale_unit(s: i64, g: u32) -> (r: i64)
    requires
        -AMP <= s <= AMP,
        g <= UNIT,
    ensures
        r == scale_unit_spec(s as int, g as int),
        -AMP <= r <= AMP,
{
    proof {
        lemma_scale_unit_range(s as int, g as int);
    }
    if s >= 0 {
        (((s as u64) * (g as u64)) / (UNIT as u64)) as i64
    } else {
        -(((((-s) as u64) * (g as u64)) / (UNIT as u64)) as i64)
    }
}

/// Mix two samples, clipping the sum at full scale.
pub open spec fn clip_spec(x: int) -> int {
    if x > AMP {
        AMP as int
    } else if x < -(AMP as int) {
        -(AMP as int)
    } else {
        x
    }
}

pub fn clip_add(a: i64, b: i64) -> (r: i64)
    requires
        -AMP <= a <= AMP,
        -AMP <= b <= AMP,
    ensures
        r == clip_spec(a + b),
        -AMP <= r <= AMP,
{
    let x = a + b;
    if x > AMP {
        AMP
    } else if x < -AMP {
        -AMP
    } else {
        x
    }
}

/// Multiply two samples, treating full scale as unity gain: the amplitude
/// modulation arithmetic. The magnitudes multiply and scale back by AMP,
/// the sign is the sign of the product.
pub open spec fn mul_amp_spec(x: int, y: int) -> int {
    let mx = if x >= 0 {
        x
    } else {
        -x
    };
    let my = if y >= 0 {
        y
    } else {
        -y
    };
    let m = mx * my / (AMP as int);
    if (x >= 0) == (y >= 0) {
        m
    } else {
        -m
    }
}

/// Modulating full-scale-bounded samples stays within full scale.
pub proof fn lemma_mul_amp_range(x: int, y: int)
    requires
        -AMP <= x <= AMP,
        -AMP <= y <= AMP,
    ensures
        -AMP <= mul_amp_spec(x, y) <= AMP,
{
    let mx = if x >= 0 {
        x
    } else {
        -x
    };
    let my = if y >= 0 {
        y
    } else {
        -y
    };
    lemma_mul_upper_bound(mx, AMP as int, my, AMP as int);
    lemma_div_is_ordered(mx * my, (AMP as int) * (AMP as int), AMP as int);
    lemma_div_multiples_vanish(AMP as int, AMP as int);
    vstd::arithmetic::mul::lemma_mul_nonnegative(mx, my);
    lemma_div_pos_is_pos(mx * my, AMP as int);
}

pub fn mul_amp(x: i64, y: i64) -> (r: i64)
    requires
        -AMP <= x <= AMP,
        -AMP <= y <= AMP,
    ensures
        r == mul_amp_spec(x as int, y as int),
        -AMP <= r <= AMP,
{
    proof {
        lemma_mul_amp_range(x as int, y as int);
    }
    let mx: u64 = if x >= 0 {
        x as u64
    } else {
        (-x) as u64
    };
    let my: u64 = if y >= 0 {
        y as u64
    } else {
        (-y) as u64
    };
    let m = (mx * my / (AMP as u64)) as i64;
    if (x >= 0) == (y >= 0) {
        m
    } else {
        -m
    }
}

} // verus!
