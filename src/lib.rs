//! A small real-time synthesizer core: note events travel over a bounded
//! queue into a fixed-point synthesis engine whose output is replicated over
//! the channels of a frame and tapped for visualization.

pub mod event;
pub mod synth;
pub mod tap;
pub mod session;
pub mod ingest;
pub mod audio;
pub mod keyboard;
