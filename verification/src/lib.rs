//! A verified core for a tree-of-oscillators instrument.
//!
//! The library has four parts: wave tables (one cycle of a periodic signal,
//! stored as 16-bit fixed-point samples), a synthesis tree that mixes a forest
//! of phase-locked oscillators into audio chunks, a streaming audio backend
//! that bridges chunk production to a fixed-rate consumer, and a snapshot
//! codec that turns a node subtree into compressed clipboard text and back.
//!
//! All amplitudes, frequencies and phases are fixed-point integers, so every
//! computation here is exact and fully specified; conversion to and from
//! floating point happens outside the library.

use vstd::prelude::*;

pub mod backend;
pub mod codec;
pub mod cycle;
pub mod graph;
pub mod synth;
pub mod freq;
pub mod wave;

pub use backend::LoopSource;
pub use backend::LoopTunesBackend;
pub use codec::copy_tree;
pub use codec::paste_tree;
pub use codec::Snapshot;
pub use cycle::ColorBits;
pub use cycle::Cycle;
pub use cycle::PosBits;
pub use graph::CycleNode;
pub use graph::NodeGraph;
pub use synth::play_everything;
pub use synth::synthesize;
pub use synth::PlayOutcome;
pub use wave::Generator;
pub use wave::Wave;

verus! {

/// Number of samples in one wave table.
pub const WAVE_LEN: usize = 1024;

/// A sample value of 65535 stands for the amplitude 1.0; 0 stands for 0.0.
pub const AMP_ONE: u16 = 65535;

} // verus!
