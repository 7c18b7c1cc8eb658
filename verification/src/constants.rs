//! Fixed-point scales, engine limits, and the default configuration.
//!
//! Amplitudes are `i64` with [`AMP_ONE`] for full scale 1.0. Beat positions
//! are integer ticks, [`TICKS_PER_BEAT`] to a beat; at a tempo of `bpm` milli
//! beats per minute the clock gains exactly `bpm` ticks per sample, so the
//! per-sample advance is representable without rounding.

use vstd::prelude::*;
use crate::config::{spec_default_config, valid_config, Config, Note, ParserRhythm};

verus! {

/// Samples per second of the audio stream.
pub const SAMPLE_RATE: u64 = 44100;

/// Beat-clock ticks per beat: `SAMPLE_RATE * 60 * 1000`, so that one sample
/// at `bpm` milli beats per minute advances the clock by exactly `bpm` ticks.
pub const TICKS_PER_BEAT: u64 = 2_646_000_000;

/// Beat-clock ticks per milli-beat: `TICKS_PER_BEAT / 1000`.
pub const TICKS_PER_MILLI_BEAT: u64 = 2_646_000;

/// Fixed-point amplitude equal to 1.0 at the converter boundary.
pub const AMP_ONE: i64 = 65536;

/// Largest magnitude accepted for a stored sample (input, backing track, cue).
pub const AMP_CAP: i64 = 268435456;

/// Largest magnitude a loop-buffer cell can hold: an input sample scaled by
/// the largest input gain.
pub const LOOP_CAP: i64 = 274877906944;

/// Mixed output samples are clamped to this magnitude.
pub const OUT_CAP: i64 = 70368744177664;

/// Make-up gain applied to the monitor/loop contribution of the mix.
pub const MAKEUP_GAIN: i64 = 12;

/// Largest accepted tempo, in milli beats per minute.
pub const BPM_MAX: u64 = 10_000_000;

/// Largest accepted loop length, in milli-beats.
pub const BEATS_TO_LOOP_MAX: u64 = 1_099_511_627_776;

/// Largest accepted click volume, in thousandths (1.0).
pub const VOLUME_MAX: u64 = 1000;

/// Largest accepted input gain, in thousandths (a factor of 1000).
pub const GAIN_MAX: u64 = 1_000_000;

/// Largest accepted buffer compensation, in samples.
pub const COMPENSATION_MAX: usize = 1073741824;

/// Largest accepted loop-buffer length, in samples.
pub const LOOP_LEN_MAX: u64 = 1073741824;

/// Smallest accepted subdivision-cycle length: one milli-beat of ticks.
pub const MIN_CYCLE_TICKS: u64 = 2_646_000;

/// Largest accepted number of onsets in a subdivision pattern.
pub const MAX_ONSETS: usize = 4096;

/// The beat clock saturates at this tick count rather than overflow.
pub const BEAT_TICKS_MAX: u64 = 4611686018427387904;

/// Click-gate length armed on an accented subdivision, in channel samples.
pub const CLICK_LONG: u32 = 400;

/// Click-gate length armed on a regular subdivision, in channel samples.
pub const CLICK_SHORT: u32 = 100;

/// The configuration the engine starts from: 91 bpm, a four-beat loop, and a
/// two-onset (eighth-note) subdivision pattern over a one-beat cycle.
pub fn default_config() -> (c: Config)
    ensures
        c@ == spec_default_config(),
        valid_config(c@),
{
    let mut notes: Vec<Note> = Vec::new();
    notes.push(Note { time: 0 });
    notes.push(Note { time: 1_323_000_000 });
    let c = Config {
        bpm: 91_000,
        beats_to_loop: 4_000,
        looping_on: false,
        click_on: true,
        click_toggle: false,
        click_volume: 300,
        drum_on: true,
        play_file: true,
        visual_monitor_on: true,
        audio_monitor_on: false,
        audio_in_gain: 1000,
        buffer_compensation: 4330,
        audio_subdivisions: ParserRhythm {
            notes,
            start: 0,
            end: TICKS_PER_BEAT,
        },
    };
    proof {
        assert(c@.audio_subdivisions.notes =~= seq![0u64, 1_323_000_000u64]);
        assert(c@ =~= spec_default_config());
    }
    c
}

} // verus!
