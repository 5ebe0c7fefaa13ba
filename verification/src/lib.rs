//! Real-time signal-generation core of a monophonic software instrument.
//!
//! Given a stream of note events and a handful of normalized control
//! parameters, the library produces a stereo waveform block by block.
//! All sample and control values are fixed-point integers: a full-scale
//! sample is `AMP` and a normalized control value in [0, 1] is carried in
//! micro-units of `UNIT`.

use vstd::prelude::*;

pub mod basic_signal;
pub mod engine;
pub mod graph;
pub mod midi;
pub mod notes;
pub mod params;
pub mod rand_generator;
pub mod wave;

verus! {

/// Number of samples processed per render block.
pub const BLOCK: usize = 64;

/// Full scale of a normalized control value: `UNIT` stands for 1.0.
pub const UNIT: u32 = 1000000;

/// Full scale of a sample: a sample always lies in [-AMP, AMP].
pub const AMP: i64 = 1048576;

} // verus!
