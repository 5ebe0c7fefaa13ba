//! The render loop and the instrument state around it.
//!
//! Per fixed-size block the loop consumes a pending rebuild request,
//! pushes the latest tag values into the graph, renders the block, and
//! advances the monotonic sample clock. A request that is not an exact
//! multiple of the block size is served in block-sized sub-chunks with
//! the final partial chunk cut from a full rendered block, so no output
//! position past the requested length is ever written.

use vstd::prelude::*;
use vstd::arithmetic::div_mod::lemma_fundamental_div_mod_converse_div;
use crate::{AMP, BLOCK, UNIT};
use crate::graph::{
    Graph,
    Node,
    Stage,
    Tag,
    node_inv,
    node_sample,
    node_adv,
    node_set_tag,
    node_reset,
    has_tag,
    lemma_set_tag_idempotent,
    lemma_set_tag_independent,
    lemma_set_tag_adv,
    lemma_node_adv,
    lemma_node_adv_zero,
    stage_left_spec,
    stage_right_spec,
    stage_set_tag,
};
use crate::midi::{MidiEvent, parse_midi, spec_parse_midi};
use crate::notes::{Note, NoteTracker, note_freq_mhz, spec_note_freq_mhz};
use crate::params::{Parameter, Parameters};
use crate::wave::{sat_add64, sat_add64_spec};

verus! {

/// Frequency in hertz that a full-scale frequency parameter maps to: the
/// normalized parameter value spans [0, FREQ_SCALAR] Hz.
pub const FREQ_SCALAR: u32 = 1000;

/// Sample rate assumed until the host reports one.
pub const DEFAULT_RATE: u32 = 44100;

/// Number of block-sized sub-chunks needed to serve a request.
pub open spec fn spec_blocks_of(len: int) -> int {
    (len + (BLOCK as int) - 1) / (BLOCK as int)
}

/// The graph root after the per-block tag push: the frequency tag, then
/// the modulation tag.
pub open spec fn spec_tag_root(root: Node, freq: u64, modulation: u64) -> Node {
    node_set_tag(node_set_tag(root, Tag::Freq, freq), Tag::Modulation, modulation)
}

/// Append the first `take` samples of a rendered block to an output
/// channel.
fn push_prefix(dst: &mut Vec<i64>, src: &Vec<i64>, take: usize)
    requires
        take <= src@.len(),
    ensures
        final(dst)@ == old(dst)@ + src@.take(take as int),
{
    let mut j: usize = 0;
    while j < take
        invariant
            j <= take,
            take <= src@.len(),
            dst@ == old(dst)@ + src@.take(j as int),
        decreases take - j,
    {
        proof {
            assert(src@.take((j + 1) as int) =~= src@.take(j as int).push(src@[j as int]));
        }
        let s = src[j];
        dst.push(s);
        j = j + 1;
    }
}

/// Append `take` silent samples to an output channel.
fn push_zeros(dst: &mut Vec<i64>, take: usize)
    ensures
        final(dst)@.len() == old(dst)@.len() + take,
        forall|i: int| 0 <= i < old(dst)@.len() ==> final(dst)@[i] == old(dst)@[i],
        forall|i: int|
            old(dst)@.len() <= i < final(dst)@.len() ==> final(dst)@[i] == 0,
{
    let mut j: usize = 0;
    while j < take
        invariant
            j <= take,
            dst@.len() == old(dst)@.len() + j,
            forall|i: int| 0 <= i < old(dst)@.len() ==> dst@[i] == old(dst)@[i],
            forall|i: int| old(dst)@.len() <= i < dst@.len() ==> dst@[i] == 0,
        decreases take - j,
    {
        dst.push(0);
        j = j + 1;
    }
}

/// Drive a graph for `len` samples in block-sized sub-chunks, pushing the
/// given frequency and modulation tag values before each sub-chunk. With
/// `run` false the tags are still pushed but nothing is rendered and the
/// output is silence, the degraded mode of a disabled voice.
///
/// Sample `j` of each channel is the output stage applied to sample `j`
/// of the tagged tree, however the request is chunked; the tree ends
/// advanced by exactly the number of whole blocks rendered.
#[verifier::rlimit(100)]
pub fn render_run(graph: &mut Graph, len: usize, freq: u64, modulation: u64, run: bool) -> (out: (
    Vec<i64>,
    Vec<i64>,
))
    requires
        old(graph).wf(),
        len > 0,
    ensures
        final(graph).wf(),
        final(graph).stage == old(graph).stage,
        out.0@.len() == len,
        out.1@.len() == len,
        ({
            let root1 = spec_tag_root(old(graph).root, freq, modulation);
            &&& (run ==> final(graph).root == node_adv(
                root1,
                (spec_blocks_of(len as int) * (BLOCK as int)) as nat,
            ))
            &&& (!run ==> final(graph).root == root1)
            &&& (forall|j: int|
                0 <= j < len ==> out.0@[j] == (if run {
                    stage_left_spec(old(graph).stage, node_sample(root1, j as nat))
                } else {
                    0
                }) && -AMP <= out.0@[j] <= AMP)
            &&& (forall|j: int|
                0 <= j < len ==> out.1@[j] == (if run {
                    stage_right_spec(old(graph).stage, node_sample(root1, j as nat))
                } else {
                    0
                }) && -AMP <= out.1@[j] <= AMP)
        }),
{
    let ghost g0 = *old(graph);
    let ghost root1 = spec_tag_root(g0.root, freq, modulation);
    proof {
        lemma_set_tag_idempotent(g0.root, Tag::Freq, freq);
        lemma_set_tag_independent(
            node_set_tag(g0.root, Tag::Freq, freq),
            Tag::Freq,
            freq,
            Tag::Modulation,
            modulation,
        );
        lemma_set_tag_idempotent(node_set_tag(g0.root, Tag::Freq, freq), Tag::Modulation,
            modulation);
        assert(has_tag(root1, Tag::Freq, freq));
        assert(has_tag(root1, Tag::Modulation, modulation));
        crate::graph::lemma_node_set_tag_inv(g0.root, Tag::Freq, freq);
        crate::graph::lemma_node_set_tag_inv(
            node_set_tag(g0.root, Tag::Freq, freq),
            Tag::Modulation,
            modulation,
        );
        assert(node_inv(root1));
    }
    let mut out_l: Vec<i64> = Vec::new();
    let mut out_r: Vec<i64> = Vec::new();
    let mut produced: usize = 0;
    let ghost mut b: int = 0;
    while produced < len
        invariant
            graph.wf(),
            graph.stage == g0.stage,
            g0.wf(),
            root1 == spec_tag_root(g0.root, freq, modulation),
            has_tag(root1, Tag::Freq, freq),
            has_tag(root1, Tag::Modulation, modulation),
            node_inv(root1),
            b >= 0,
            b >= 1 ==> (b - 1) * (BLOCK as int) < len,
            produced as int == (if b * (BLOCK as int) <= len {
                b * (BLOCK as int)
            } else {
                len as int
            }),
            b == 0 ==> graph.root == g0.root,
            b >= 1 && run ==> graph.root == node_adv(root1, (b * (BLOCK as int)) as nat),
            b >= 1 && !run ==> graph.root == root1,
            out_l@.len() == produced,
            out_r@.len() == produced,
            forall|j: int|
                0 <= j < produced ==> out_l@[j] == (if run {
                    stage_left_spec(g0.stage, node_sample(root1, j as nat))
                } else {
                    0
                }) && -AMP <= out_l@[j] <= AMP,
            forall|j: int|
                0 <= j < produced ==> out_r@[j] == (if run {
                    stage_right_spec(g0.stage, node_sample(root1, j as nat))
                } else {
                    0
                }) && -AMP <= out_r@[j] <= AMP,
        decreases len - produced,
    {
        proof {
            if b >= 1 && run {
                lemma_set_tag_adv(root1, Tag::Freq, freq, (b * (BLOCK as int)) as nat);
                lemma_set_tag_adv(root1, Tag::Modulation, modulation, (b * (BLOCK as int)) as nat);
            }
        }
        graph.set_tag(Tag::Freq, freq);
        graph.set_tag(Tag::Modulation, modulation);
        proof {
            if b == 0 {
                assert(graph.root == root1);
            } else if run {
                assert(has_tag(node_adv(root1, (b * (BLOCK as int)) as nat), Tag::Freq, freq));
                assert(graph.root == node_adv(root1, (b * (BLOCK as int)) as nat));
            } else {
                assert(graph.root == root1);
            }
        }
        let remaining = len - produced;
        let take = if remaining < BLOCK {
            remaining
        } else {
            BLOCK
        };
        let ghost before = b * (BLOCK as int);
        proof {
            assert(produced as int == before);
            if b == 0 && run {
                lemma_node_adv_zero(root1);
            }
        }
        if run {
            let (lb, rb) = graph.render(BLOCK);
            let ghost out_l0 = out_l@;
            let ghost out_r0 = out_r@;
            push_prefix(&mut out_l, &lb, take);
            push_prefix(&mut out_r, &rb, take);
            proof {
                lemma_node_adv(root1, before as nat, BLOCK as nat);
                assert((b + 1) * (BLOCK as int) == before + (BLOCK as int));
                assert forall|i: int| 0 <= i < before + take implies out_l@[i] == stage_left_spec(
                    g0.stage,
                    node_sample(root1, i as nat),
                ) && -AMP <= out_l@[i] <= AMP by {
                    if i < before {
                        assert(out_l@[i] == out_l0[i]);
                    } else {
                        assert(out_l@[i] == lb@[i - before]);
                        lemma_node_adv(root1, before as nat, (i - before) as nat);
                    }
                }
                assert forall|i: int| 0 <= i < before + take implies out_r@[i]
                    == stage_right_spec(g0.stage, node_sample(root1, i as nat)) && -AMP
                    <= out_r@[i] <= AMP by {
                    if i < before {
                        assert(out_r@[i] == out_r0[i]);
                    } else {
                        assert(out_r@[i] == rb@[i - before]);
                        lemma_node_adv(root1, before as nat, (i - before) as nat);
                    }
                }
            }
        } else {
            let ghost out_l0 = out_l@;
            let ghost out_r0 = out_r@;
            push_zeros(&mut out_l, take);
            push_zeros(&mut out_r, take);
            proof {
                assert forall|i: int| 0 <= i < before + take implies out_l@[i] == 0 && out_r@[i]
                    == 0 by {
                    if i < before {
                        assert(out_l@[i] == out_l0[i]);
                        assert(out_r@[i] == out_r0[i]);
                    } else {
                        assert(out_l@[i] == 0);
                        assert(out_r@[i] == 0);
                    }
                }
            }
        }
        produced = produced + take;
        proof {
            b = b + 1;
            assert(b * (BLOCK as int) == before + (BLOCK as int));
        }
    }
    proof {
        assert(produced == len);
        assert(b >= 1);
        assert((b - 1) * (BLOCK as int) < len);
        assert(b * (BLOCK as int) >= len);
        let blk = BLOCK as int;
        let r = (len as int) + blk - 1 - b * blk;
        assert(0 <= r < blk);
        lemma_fundamental_div_mod_converse_div((len as int) + blk - 1, blk, b, r);
        assert(spec_blocks_of(len as int) == b);
    }
    (out_l, out_r)
}

/// The whole instrument: control snapshot, note state, signal graph, and
/// the render clock.
pub struct Synth {
    pub parameters: Parameters,
    pub tracker: NoteTracker,
    pub graph: Graph,
    pub sample_rate: u32,
    /// Monotonic render clock, in samples since the last rate change.
    pub time_samples: u64,
    /// Render-clock stamp of the most recent note-on.
    pub last_onset: u64,
    /// Whether a note has ever triggered the voice; silence before that.
    pub enabled: bool,
}

/// Frequency tag value, in millihertz, derived from the frequency
/// parameter through the frequency scalar.
pub open spec fn spec_param_freq_mhz(p: Parameters) -> int {
    p.frequency * (FREQ_SCALAR as int) * 1000 / (UNIT as int)
}

/// Frequency tag value for a block: the sounding note's pitch when one
/// is held, the frequency parameter otherwise.
pub open spec fn spec_freq_tag(s: Synth) -> int {
    match s.tracker.current {
        Some(n) => spec_note_freq_mhz(n.pitch),
        None => spec_param_freq_mhz(s.parameters),
    }
}

/// The graph the builder constructs from a state snapshot: the decaying
/// envelope modulating a sine voice through a constant level, panned by
/// the pan parameter. The envelope clock continues the render clock and
/// keeps the most recent onset, so a rebuild mid-note does not restart
/// the decay.
pub open spec fn spec_build_graph(s: Synth) -> Graph {
    Graph {
        root: Node::Product(
            Box::new(
                Node::Envelope {
                    clock: s.time_samples,
                    onset: s.last_onset,
                    rate: s.sample_rate,
                },
            ),
            Box::new(
                Node::Product(
                    Box::new(
                        Node::Sine {
                            phase: 0,
                            freq_mhz: spec_freq_tag(s) as u64,
                            rate: s.sample_rate,
                        },
                    ),
                    Box::new(Node::Level { value: s.parameters.modulation }),
                ),
            ),
        ),
        stage: Stage::Pan { pan: s.parameters.pan },
    }
}

/// The state after the pending rebuild request, if any, has been served:
/// the dirty flag is consumed and the graph is replaced wholesale by a
/// freshly built one; with no request pending nothing changes.
pub open spec fn spec_after_dirty(s: Synth) -> Synth {
    if s.parameters.dirty {
        Synth {
            parameters: Parameters { dirty: false, ..s.parameters },
            graph: spec_build_graph(s),
            ..s
        }
    } else {
        s
    }
}

/// Law: serving a rebuild request swaps the graph wholesale. After the
/// dirty flag is consumed, the render path holds either the old graph,
/// untouched, or exactly the freshly built one — never anything in
/// between — the flag is down, and the graph is well-formed. A render
/// therefore never reads a partially changed graph.
pub proof fn lemma_rebuild_is_wholesale(s: Synth)
    requires
        s.wf(),
    ensures
        spec_after_dirty(s).graph == s.graph || spec_after_dirty(s).graph == spec_build_graph(s),
        s.parameters.dirty ==> spec_after_dirty(s).graph == spec_build_graph(s),
        !spec_after_dirty(s).parameters.dirty,
        spec_after_dirty(s).wf(),
{
    if s.parameters.dirty {
        let g = spec_build_graph(s);
        let voice = *g.root->Product_1;
        assert(node_inv(*voice->Product_0));
        assert(node_inv(*voice->Product_1));
        assert(node_inv(*g.root->Product_0));
        assert(node_inv(voice));
        assert(node_inv(g.root));
    }
}

/// The state after one parsed note event: a note-on retriggers the
/// envelope by stamping the onset tag with the current render clock and
/// enables the voice; a note-off only moves the tracker; bytes that are
/// no note event change nothing.
pub open spec fn spec_event_step(s: Synth, data: [u8; 3]) -> Synth {
    match spec_parse_midi(data) {
        Some(MidiEvent::NoteOn { pitch, velocity }) => Synth {
            tracker: s.tracker.spec_note_on(Note { pitch, velocity }),
            graph: Graph {
                root: node_set_tag(s.graph.root, Tag::NoteOn, s.time_samples),
                stage: stage_set_tag(s.graph.stage, Tag::NoteOn, s.time_samples),
            },
            last_onset: s.time_samples,
            enabled: true,
            ..s
        },
        Some(MidiEvent::NoteOff { pitch, velocity }) => Synth {
            tracker: s.tracker.spec_note_off(pitch, velocity),
            ..s
        },
        None => s,
    }
}

/// The state after a whole batch of events, applied in order.
pub open spec fn spec_process_events(s: Synth, events: Seq<[u8; 3]>) -> Synth
    decreases events.len(),
{
    if events.len() == 0 {
        s
    } else {
        spec_event_step(spec_process_events(s, events.drop_last()), events.last())
    }
}

impl Synth {
    pub open spec fn wf(self) -> bool {
        self.parameters.wf() && self.graph.wf() && self.sample_rate >= 1
    }

    /// Frequency tag value for the coming block.
    pub fn freq_tag_value(&self) -> (f: u64)
        requires
            self.parameters.wf(),
        ensures
            f == spec_freq_tag(*self),
    {
        match self.tracker.current {
            Some(n) => note_freq_mhz(n.pitch),
            None => {
                let f0: u64 = self.parameters.frequency as u64;
                proof {
                    assert(f0 <= 1000000);
                    assert(FREQ_SCALAR == 1000);
                }
                let scaled: u64 = f0 * 1000;
                proof {
                    assert(scaled <= 1000000000);
                }
                (scaled * 1000) / (UNIT as u64)
            }
        }
    }

    /// Replace the graph by one freshly built from the current snapshot.
    pub fn update_audio_graph(&mut self)
        requires
            old(self).wf(),
        ensures
            *final(self) == (Synth { graph: spec_build_graph(*old(self)), ..*old(self) }),
            final(self).wf(),
    {
        let freq = self.freq_tag_value();
        let env = Node::Envelope {
            clock: self.time_samples,
            onset: self.last_onset,
            rate: self.sample_rate,
        };
        let osc = Node::Sine { phase: 0, freq_mhz: freq, rate: self.sample_rate };
        let level = Node::Level { value: self.parameters.modulation };
        proof {
            assert(node_inv(env));
            assert(node_inv(osc));
            assert(node_inv(level));
        }
        let voice = Node::Product(Box::new(osc), Box::new(level));
        proof {
            assert(node_inv(voice));
        }
        let root = Node::Product(Box::new(env), Box::new(voice));
        proof {
            assert(node_inv(root));
        }
        self.graph = Graph { root, stage: Stage::Pan { pan: self.parameters.pan } };
    }

    /// A fresh instrument: default parameters with a rebuild pending,
    /// silent tracker, a graph built from that snapshot, and the voice
    /// disabled until the first note-on.
    pub fn new() -> (s: Synth)
        ensures
            s.wf(),
            s.parameters == Parameters::spec_default(),
            s.tracker == crate::notes::empty_tracker(),
            s.sample_rate == DEFAULT_RATE,
            s.time_samples == 0,
            s.last_onset == 0,
            !s.enabled,
            s.graph == spec_build_graph(s),
    {
        let parameters = Parameters::default();
        let tracker = NoteTracker::empty();
        let mut s = Synth {
            parameters,
            tracker,
            graph: Graph { root: Node::Level { value: 0 }, stage: Stage::Split },
            sample_rate: DEFAULT_RATE,
            time_samples: 0,
            last_onset: 0,
            enabled: false,
        };
        s.update_audio_graph();
        s
    }

    /// Adopt a new sample rate: reset the graph for it and restart the
    /// render clock. Must be called before the next render after the
    /// host reports a rate change.
    pub fn set_sample_rate(&mut self, rate: u32)
        requires
            old(self).wf(),
            rate >= 1,
        ensures
            final(self).wf(),
            *final(self) == (Synth {
                graph: Graph {
                    root: node_reset(old(self).graph.root, rate),
                    stage: old(self).graph.stage,
                },
                sample_rate: rate,
                time_samples: 0,
                last_onset: 0,
                ..*old(self)
            }),
    {
        self.sample_rate = rate;
        self.time_samples = 0;
        self.last_onset = 0;
        self.graph.reset(rate);
    }

    /// Serve a pending rebuild request: consume the dirty flag and, if it
    /// was raised, install a freshly built graph in one wholesale
    /// replacement. This is the only point where the graph changes
    /// identity, so a render never sees a partially changed graph.
    pub fn start_process(&mut self)
        requires
            old(self).wf(),
        ensures
            final(self).wf(),
            *final(self) == spec_after_dirty(*old(self)),
    {
        if self.parameters.take_dirty() {
            self.update_audio_graph();
        }
    }

    /// Apply a batch of raw MIDI messages, in host order.
    pub fn process_events(&mut self, events: &Vec<[u8; 3]>)
        requires
            old(self).wf(),
        ensures
            final(self).wf(),
            *final(self) == spec_process_events(*old(self), events@),
    {
        let ghost s0 = *old(self);
        let n = events.len();
        let mut i: usize = 0;
        while i < n
            invariant
                i <= n,
                n == events@.len(),
                self.wf(),
                *self == spec_process_events(s0, events@.take(i as int)),
            decreases n - i,
        {
            let data = events[i];
            proof {
                assert(events@.take((i + 1) as int).drop_last() =~= events@.take(i as int));
                assert(events@.take((i + 1) as int).last() == data);
            }
            match parse_midi(&data) {
                Some(MidiEvent::NoteOn { pitch, velocity }) => {
                    self.tracker.note_on(Note { pitch, velocity });
                    let t = self.time_samples;
                    self.graph.set_tag(Tag::NoteOn, t);
                    self.last_onset = t;
                    self.enabled = true;
                }
                Some(MidiEvent::NoteOff { pitch, velocity }) => {
                    self.tracker.note_off(pitch, velocity);
                }
                None => {}
            }
            i = i + 1;
        }
        proof {
            assert(events@.take(n as int) =~= events@);
        }
    }

    /// Push one tag value into the graph.
    pub fn set_tag(&mut self, tag: Tag, value: u64)
        requires
            old(self).wf(),
        ensures
            final(self).wf(),
            *final(self) == (Synth {
                graph: Graph {
                    root: node_set_tag(old(self).graph.root, tag, value),
                    stage: stage_set_tag(old(self).graph.stage, tag, value),
                },
                ..*old(self)
            }),
    {
        self.graph.set_tag(tag, value);
    }

    /// Push a parameter's current value into the graph under the given
    /// tag.
    pub fn set_tag_with_param(&mut self, tag: Tag, param: Parameter)
        requires
            old(self).wf(),
        ensures
            final(self).wf(),
            *final(self) == (Synth {
                graph: Graph {
                    root: node_set_tag(
                        old(self).graph.root,
                        tag,
                        old(self).parameters.spec_get(param.spec_index()) as u64,
                    ),
                    stage: stage_set_tag(
                        old(self).graph.stage,
                        tag,
                        old(self).parameters.spec_get(param.spec_index()) as u64,
                    ),
                },
                ..*old(self)
            }),
    {
        let value = self.parameters.get_parameter(param.index());
        self.graph.set_tag(tag, value as u64);
    }

    /// Serve one host render request of `len` frames into `channels`
    /// channels. A request for other than two channels, or for zero
    /// frames, produces no audio and changes nothing beyond returning
    /// (`None`, or empty buffers). Otherwise: the pending rebuild is
    /// served first; then, per block, the frequency and modulation tags
    /// are refreshed and a block is rendered; the lengths returned are
    /// exactly `len`. While the voice has never been triggered the
    /// output is silence and the clock does not advance.
    #[verifier::rlimit(100)]
    pub fn process(&mut self, channels: usize, len: usize) -> (out: Option<(Vec<i64>, Vec<i64>)>)
        requires
            old(self).wf(),
        ensures
            final(self).wf(),
            channels != 2 ==> out is None && *final(self) == *old(self),
            channels == 2 && len == 0 ==> *final(self) == *old(self) && (out matches Some(o)
                && o.0@.len() == 0 && o.1@.len() == 0),
            channels == 2 && len > 0 ==> ({
                let s1 = spec_after_dirty(*old(self));
                let root1 = spec_tag_root(
                    s1.graph.root,
                    spec_freq_tag(s1) as u64,
                    s1.parameters.modulation as u64,
                );
                let adv = spec_blocks_of(len as int) * (BLOCK as int);
                &&& (out matches Some(o) && o.0@.len() == len && o.1@.len() == len)
                &&& (s1.enabled ==> *final(self) == (Synth {
                    graph: Graph { root: node_adv(root1, adv as nat), stage: s1.graph.stage },
                    time_samples: sat_add64_spec(s1.time_samples as int, adv) as u64,
                    ..s1
                }))
                &&& (!s1.enabled ==> *final(self) == (Synth {
                    graph: Graph { root: root1, stage: s1.graph.stage },
                    ..s1
                }))
                &&& (out matches Some(o) ==> forall|j: int|
                    0 <= j < len ==> o.0@[j] == (if s1.enabled {
                        stage_left_spec(s1.graph.stage, node_sample(root1, j as nat))
                    } else {
                        0
                    }) && -AMP <= o.0@[j] <= AMP)
                &&& (out matches Some(o) ==> forall|j: int|
                    0 <= j < len ==> o.1@[j] == (if s1.enabled {
                        stage_right_spec(s1.graph.stage, node_sample(root1, j as nat))
                    } else {
                        0
                    }) && -AMP <= o.1@[j] <= AMP)
            }),
    {
        if channels != 2 {
            return None;
        }
        if len == 0 {
            return Some((Vec::new(), Vec::new()));
        }
        self.start_process();
        let out = self.process_core(len);
        Some(out)
    }

    /// The body of a well-formed render request: push the latest tag
    /// values, render `len` samples block by block, and advance the
    /// render clock by the blocks rendered (not at all while the voice
    /// is disabled).
    fn process_core(&mut self, len: usize) -> (out: (Vec<i64>, Vec<i64>))
        requires
            old(self).wf(),
            len > 0,
        ensures
            final(self).wf(),
            out.0@.len() == len,
            out.1@.len() == len,
            ({
                let root1 = spec_tag_root(
                    old(self).graph.root,
                    spec_freq_tag(*old(self)) as u64,
                    old(self).parameters.modulation as u64,
                );
                let adv = spec_blocks_of(len as int) * (BLOCK as int);
                &&& (old(self).enabled ==> *final(self) == (Synth {
                    graph: Graph {
                        root: node_adv(root1, adv as nat),
                        stage: old(self).graph.stage,
                    },
                    time_samples: sat_add64_spec(old(self).time_samples as int, adv) as u64,
                    ..*old(self)
                }))
                &&& (!old(self).enabled ==> *final(self) == (Synth {
                    graph: Graph { root: root1, stage: old(self).graph.stage },
                    ..*old(self)
                }))
                &&& (forall|j: int|
                    0 <= j < len ==> out.0@[j] == (if old(self).enabled {
                        stage_left_spec(old(self).graph.stage, node_sample(root1, j as nat))
                    } else {
                        0
                    }) && -AMP <= out.0@[j] <= AMP)
                &&& (forall|j: int|
                    0 <= j < len ==> out.1@[j] == (if old(self).enabled {
                        stage_right_spec(old(self).graph.stage, node_sample(root1, j as nat))
                    } else {
                        0
                    }) && -AMP <= out.1@[j] <= AMP)
            }),
    {
        let freq = self.freq_tag_value();
        let modulation = self.parameters.modulation as u64;
        let run = self.enabled;
        let out = render_run(&mut self.graph, len, freq, modulation, run);
        if run {
            let ghost adv = spec_blocks_of(len as int) * (BLOCK as int);
            let blocks = ((len as u64) - 1) / (BLOCK as u64) + 1;
            proof {
                let blk = BLOCK as int;
                let q = ((len as int) - 1) / blk;
                let r = ((len as int) - 1) % blk;
                vstd::arithmetic::div_mod::lemma_fundamental_div_mod((len as int) - 1, blk);
                lemma_fundamental_div_mod_converse_div((len as int) + blk - 1, blk, q + 1, r);
                assert(spec_blocks_of(len as int) == q + 1);
                assert(blocks * (BLOCK as int) == adv);
            }
            let t = self.time_samples;
            self.time_samples = sat_add64_mul(t, blocks, BLOCK as u64);
        }
        out
    }
}

/// Saturating add of a product, for advancing the render clock by a
/// whole number of blocks.
fn sat_add64_mul(t: u64, blocks: u64, block: u64) -> (r: u64)
    ensures
        r == sat_add64_spec(t as int, (blocks as int) * (block as int)),
{
    proof {
        vstd::arithmetic::mul::lemma_mul_upper_bound(
            blocks as int,
            u64::MAX as int,
            block as int,
            u64::MAX as int,
        );
    }
    let wide: u128 = (blocks as u128) * (block as u128);
    if wide > u64::MAX as u128 {
        u64::MAX
    } else {
        sat_add64(t, wide as u64)
    }
}

} // verus!
