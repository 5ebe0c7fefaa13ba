//! The noise play mode: fill every requested channel with uniform noise
//! from a seeded pseudo-random stream.
//!
//! The seed is drawn once, from the process's random source; from then
//! on the stream is the deterministic generator of the waveform module,
//! so rendering is a function of the generator state alone.

use vstd::prelude::*;
use crate::AMP;
use crate::wave::{lcg_next, lcg_iter_spec, noise_sample_spec, noise_sample, lemma_lcg_iter_add};

verus! {

/// Relies on rand::random: draws one value from the thread-local
/// generator, used only to seed the noise stream; nothing is promised of
/// the value drawn.
#[verifier::external_body]
fn random_seed() -> u64 {
    rand::random::<u64>()
}

/// The state of the noise play mode: the current stream state.
pub struct NoiseGen {
    pub state: u64,
}

impl NoiseGen {
    /// A noise generator seeded from the process's random source.
    pub fn new() -> NoiseGen {
        NoiseGen { state: random_seed() }
    }

    /// A noise generator with a caller-chosen seed, for reproducible
    /// runs.
    pub fn with_seed(seed: u64) -> (g: NoiseGen)
        ensures
            g.state == seed,
    {
        NoiseGen { state: seed }
    }
}

/// The samples one channel receives from a stream starting at `s`:
/// consecutive draws, each folded into the noise shape.
pub open spec fn spec_noise_channel(s: int, len: nat) -> Seq<i64> {
    Seq::new(len, |k: int| noise_sample_spec(lcg_iter_spec(s, (k + 1) as nat)) as i64)
}

/// The stream state after `c` whole channels of `len` draws each.
pub open spec fn spec_stream_after(s: int, c: nat, len: nat) -> int
    decreases c,
{
    if c == 0 {
        s
    } else {
        lcg_iter_spec(spec_stream_after(s, (c - 1) as nat, len), len)
    }
}

/// Channel counting agrees with plain draw counting: after `c` channels
/// of `len` draws the stream has made `c * len` steps.
pub proof fn lemma_stream_after_is_iter(s: int, c: nat, len: nat)
    ensures
        spec_stream_after(s, c, len) == lcg_iter_spec(s, c * len),
    decreases c,
{
    if c == 0 {
        assert(c * len == 0) by (nonlinear_arith)
            requires
                c == 0,
        ;
    } else {
        lemma_stream_after_is_iter(s, (c - 1) as nat, len);
        lemma_lcg_iter_add(s, ((c - 1) as nat) * len, len);
        assert(((c - 1) as nat) * len + len == c * len) by (nonlinear_arith)
            requires
                c >= 1,
        ;
    }
}

/// Fill one channel with `len` consecutive draws of the noise stream.
fn fill_channel(gen: &mut NoiseGen, len: usize) -> (chan: Vec<i64>)
    ensures
        chan@.len() == len,
        chan@ == spec_noise_channel(old(gen).state as int, len as nat),
        forall|j: int| 0 <= j < len ==> -AMP <= #[trigger] chan@[j] <= AMP,
        final(gen).state as int == lcg_iter_spec(old(gen).state as int, len as nat),
{
    let ghost s0 = gen.state as int;
    let mut chan: Vec<i64> = Vec::new();
    let mut k: usize = 0;
    while k < len
        invariant
            k <= len,
            gen.state as int == lcg_iter_spec(s0, k as nat),
            chan@.len() == k,
            forall|j: int|
                0 <= j < k ==> (#[trigger] chan@[j]) == noise_sample_spec(
                    lcg_iter_spec(s0, (j + 1) as nat),
                ) && -AMP <= chan@[j] <= AMP,
        decreases len - k,
    {
        let next = lcg_next(gen.state);
        proof {
            lemma_lcg_iter_add(s0, k as nat, 1);
        }
        gen.state = next;
        let s = noise_sample(next);
        chan.push(s);
        k = k + 1;
    }
    proof {
        assert(chan@ =~= spec_noise_channel(s0, len as nat));
    }
    chan
}

/// Fill `channels` buffers of `len` samples each with consecutive draws
/// of the noise stream, channel by channel: channel `c` holds the noise
/// shapes of the stream as it stands after `c` whole channels, and the
/// generator ends advanced by exactly `channels` channels of `len` draws
/// (that is, `channels * len` steps).
pub fn play(gen: &mut NoiseGen, channels: usize, len: usize) -> (out: Vec<Vec<i64>>)
    ensures
        out@.len() == channels,
        forall|c: int|
            0 <= c < channels ==> (#[trigger] out@[c])@ == spec_noise_channel(
                spec_stream_after(old(gen).state as int, c as nat, len as nat),
                len as nat,
            ),
        final(gen).state as int == spec_stream_after(
            old(gen).state as int,
            channels as nat,
            len as nat,
        ),
{
    let ghost s0 = gen.state as int;
    let mut out: Vec<Vec<i64>> = Vec::new();
    let mut c: usize = 0;
    while c < channels
        invariant
            c <= channels,
            gen.state as int == spec_stream_after(s0, c as nat, len as nat),
            out@.len() == c,
            forall|i: int|
                0 <= i < c ==> (#[trigger] out@[i])@ == spec_noise_channel(
                    spec_stream_after(s0, i as nat, len as nat),
                    len as nat,
                ),
        decreases channels - c,
    {
        let chan = fill_channel(gen, len);
        proof {
            assert(spec_stream_after(s0, (c + 1) as nat, len as nat) == lcg_iter_spec(
                spec_stream_after(s0, c as nat, len as nat),
                len as nat,
            ));
        }
        out.push(chan);
        c = c + 1;
    }
    out
}

} // verus!
