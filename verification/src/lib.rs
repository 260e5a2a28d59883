//! Real-time voice pipeline and dual-path transport for a voice-chat client.
//!
//! The library covers the chain that turns microphone samples into encoded
//! network frames and back: noise gating, resampling, framing and encoding,
//! per-peer decode buffers with saturating mixing, a dual-path transport with
//! ping-based liveness and rotating session crypto, and the connection phase
//! machine that coordinates every long-running task.

pub mod audio;
pub mod capture;
pub mod codec;
pub mod crypt;
pub mod config;
pub mod error;
pub mod gate;
pub mod mixer;
pub mod phase;
pub mod ping;
pub mod resample;
pub mod server;
pub mod sound_effects;
pub mod state;
pub mod transport;

use vstd::prelude::*;

verus! {

/// Samples per second used everywhere inside the pipeline.
pub const SAMPLE_RATE: u32 = 48000;

} // verus!
