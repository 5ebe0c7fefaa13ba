//! The always-running render entry: drive the graph straight from the
//! frequency and modulation parameters, with no note gating, no rebuild
//! handling and no clock advance. A request for other than two channels
//! produces nothing.

use vstd::prelude::*;
use crate::AMP;
use crate::engine::{Synth, render_run, spec_tag_root, spec_param_freq_mhz, spec_blocks_of};
use crate::graph::{Graph, node_adv, node_sample, stage_left_spec, stage_right_spec};
use crate::BLOCK;

verus! {

/// Render `len` frames into two channels from the current parameter
/// values alone: the frequency tag comes from the frequency parameter
/// through the frequency scalar, the modulation tag from the modulation
/// parameter. Sample `j` of each channel is the output stage applied to
/// sample `j` of the freshly tagged tree.
pub fn play(synth: &mut Synth, channels: usize, len: usize) -> (out: Option<(Vec<i64>, Vec<i64>)>)
    requires
        old(synth).wf(),
    ensures
        final(synth).wf(),
        channels != 2 ==> out is None && *final(synth) == *old(synth),
        channels == 2 && len == 0 ==> *final(synth) == *old(synth) && (out matches Some(o)
            && o.0@.len() == 0 && o.1@.len() == 0),
        channels == 2 && len > 0 ==> ({
            let root1 = spec_tag_root(
                old(synth).graph.root,
                spec_param_freq_mhz(old(synth).parameters) as u64,
                old(synth).parameters.modulation as u64,
            );
            let adv = spec_blocks_of(len as int) * (BLOCK as int);
            &&& (out matches Some(o) && o.0@.len() == len && o.1@.len() == len)
            &&& *final(synth) == (Synth {
                graph: Graph { root: node_adv(root1, adv as nat), stage: old(synth).graph.stage },
                ..*old(synth)
            })
            &&& (out matches Some(o) ==> forall|j: int|
                0 <= j < len ==> o.0@[j] == stage_left_spec(
                    old(synth).graph.stage,
                    node_sample(root1, j as nat),
                ) && -AMP <= o.0@[j] <= AMP)
            &&& (out matches Some(o) ==> forall|j: int|
                0 <= j < len ==> o.1@[j] == stage_right_spec(
                    old(synth).graph.stage,
                    node_sample(root1, j as nat),
                ) && -AMP <= o.1@[j] <= AMP)
        }),
{
    if channels != 2 {
        return None;
    }
    if len == 0 {
        return Some((Vec::new(), Vec::new()));
    }
    let f0: u64 = synth.parameters.frequency as u64;
    proof {
        assert(f0 <= 1000000);
    }
    let scaled: u64 = f0 * 1000;
    let freq = (scaled * 1000) / (crate::UNIT as u64);
    proof {
        assert(crate::engine::FREQ_SCALAR == 1000);
        assert(freq == spec_param_freq_mhz(synth.parameters));
    }
    let modulation = synth.parameters.modulation as u64;
    let out = render_run(&mut synth.graph, len, freq, modulation, true);
    Some(out)
}

} // verus!
