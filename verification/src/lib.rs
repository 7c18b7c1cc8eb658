//! A practice-tool audio engine: mixes live input with a backing track, a
//! beat-synchronized overdub loop, and percussive click/cue sounds, driven by
//! a tempo and a nonuniform rhythmic subdivision pattern.
//!
//! All audio amplitudes are fixed-point `i64` values with [`constants::AMP_ONE`]
//! standing for full scale 1.0; beat positions are integer ticks with
//! [`constants::TICKS_PER_BEAT`] ticks to a beat, so that one sample at a tempo
//! of `bpm_milli` thousandths of a beat per minute advances the clock by
//! exactly `bpm_milli` ticks.

pub mod beat_bisect;
pub mod config;
pub mod constants;
pub mod engine;
pub mod get_loop_buffer_size;
pub mod io_channels;
pub mod loop_buffer;
mod rng;
pub mod structs;
pub mod triggers;
pub mod util;
