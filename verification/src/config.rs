//! The engine configuration: tempo, loop length, mix flags, gains, and the
//! rhythmic subdivision pattern, together with its validity rules and the
//! boundary check that rejects malformed configurations.

use vstd::prelude::*;
use crate::constants::{
    BEATS_TO_LOOP_MAX, BPM_MAX, COMPENSATION_MAX, GAIN_MAX, LOOP_LEN_MAX, MAX_ONSETS,
    MIN_CYCLE_TICKS, SAMPLE_RATE, TICKS_PER_BEAT, VOLUME_MAX,
};
use crate::util::sorted;

verus! {

/// One onset of a subdivision pattern, at `time` beat-clock ticks from the
/// start of the cycle.
#[derive(Clone, Copy, PartialEq, Eq, Structural, Debug)]
pub struct Note {
    pub time: u64,
}

/// A rhythmic subdivision pattern: onsets inside one cycle of `end` ticks.
/// `start` is carried for the pattern editor but does not affect playback.
pub struct ParserRhythm {
    pub notes: Vec<Note>,
    pub start: u64,
    pub end: u64,
}

/// The mathematical content of a [`ParserRhythm`]: the onset times as a
/// sequence of ticks.
#[verifier::ext_equal]
pub struct RhythmView {
    pub notes: Seq<u64>,
    pub start: u64,
    pub end: u64,
}

impl View for ParserRhythm {
    type V = RhythmView;

    open spec fn view(&self) -> RhythmView {
        RhythmView {
            notes: self.notes@.map_values(|n: Note| n.time),
            start: self.start,
            end: self.end,
        }
    }
}

/// The full parameter set consumed by the render step. Tempo and loop length
/// are in thousandths (milli beats per minute, milli-beats); gains and the
/// click volume are in thousandths of unity.
pub struct Config {
    pub bpm: u64,
    pub beats_to_loop: u64,
    pub looping_on: bool,
    pub click_on: bool,
    pub click_toggle: bool,
    pub click_volume: u64,
    pub drum_on: bool,
    pub play_file: bool,
    pub visual_monitor_on: bool,
    pub audio_monitor_on: bool,
    pub audio_in_gain: u64,
    pub buffer_compensation: usize,
    pub audio_subdivisions: ParserRhythm,
}

/// The mathematical content of a [`Config`].
#[verifier::ext_equal]
pub struct ConfigView {
    pub bpm: u64,
    pub beats_to_loop: u64,
    pub looping_on: bool,
    pub click_on: bool,
    pub click_toggle: bool,
    pub click_volume: u64,
    pub drum_on: bool,
    pub play_file: bool,
    pub visual_monitor_on: bool,
    pub audio_monitor_on: bool,
    pub audio_in_gain: u64,
    pub buffer_compensation: usize,
    pub audio_subdivisions: RhythmView,
}

impl View for Config {
    type V = ConfigView;

    open spec fn view(&self) -> ConfigView {
        ConfigView {
            bpm: self.bpm,
            beats_to_loop: self.beats_to_loop,
            looping_on: self.looping_on,
            click_on: self.click_on,
            click_toggle: self.click_toggle,
            click_volume: self.click_volume,
            drum_on: self.drum_on,
            play_file: self.play_file,
            visual_monitor_on: self.visual_monitor_on,
            audio_monitor_on: self.audio_monitor_on,
            audio_in_gain: self.audio_in_gain,
            buffer_compensation: self.buffer_compensation,
            audio_subdivisions: self.audio_subdivisions@,
        }
    }
}

/// A subdivision pattern is accepted when its onsets are sorted, fit in one
/// cycle, and the cycle is at least one milli-beat long.
pub open spec fn valid_rhythm(r: RhythmView) -> bool {
    &&& r.notes.len() <= MAX_ONSETS
    &&& sorted(r.notes)
    &&& r.end >= MIN_CYCLE_TICKS
    &&& r.notes.len() > 0 ==> r.notes.last() < r.end
}

/// The loop-buffer length derived from a configuration: the loop duration in
/// samples for both channels, `beats_to_loop / bpm * SAMPLE_RATE * 60 * 2`,
/// rounded to the nearest whole sample.
pub open spec fn loop_len_spec(c: ConfigView) -> int {
    (c.beats_to_loop * SAMPLE_RATE * 120 + c.bpm / 2) as int / c.bpm as int
}

/// A configuration is accepted when the tempo is positive and every field is
/// inside the fixed-point limits of the engine.
pub open spec fn valid_config(c: ConfigView) -> bool {
    &&& 0 < c.bpm <= BPM_MAX
    &&& c.beats_to_loop <= BEATS_TO_LOOP_MAX
    &&& c.click_volume <= VOLUME_MAX
    &&& c.audio_in_gain <= GAIN_MAX
    &&& c.buffer_compensation <= COMPENSATION_MAX
    &&& valid_rhythm(c.audio_subdivisions)
    &&& loop_len_spec(c) <= LOOP_LEN_MAX
}

/// Why a submitted configuration was rejected at the boundary.
#[derive(Clone, Copy, PartialEq, Eq, Structural, Debug)]
pub enum ConfigError {
    NonPositiveTempo,
    TempoTooHigh,
    LoopTooLong,
    VolumeTooHigh,
    GainTooHigh,
    CompensationTooHigh,
    PatternInvalid,
    BufferTooLong,
}

/// The exact outcome of the boundary check, first failed rule first.
pub open spec fn spec_validate(c: ConfigView) -> Result<(), ConfigError> {
    if c.bpm == 0 {
        Err(ConfigError::NonPositiveTempo)
    } else if c.bpm > BPM_MAX {
        Err(ConfigError::TempoTooHigh)
    } else if c.beats_to_loop > BEATS_TO_LOOP_MAX {
        Err(ConfigError::LoopTooLong)
    } else if c.click_volume > VOLUME_MAX {
        Err(ConfigError::VolumeTooHigh)
    } else if c.audio_in_gain > GAIN_MAX {
        Err(ConfigError::GainTooHigh)
    } else if c.buffer_compensation > COMPENSATION_MAX {
        Err(ConfigError::CompensationTooHigh)
    } else if !valid_rhythm(c.audio_subdivisions) {
        Err(ConfigError::PatternInvalid)
    } else if loop_len_spec(c) > LOOP_LEN_MAX {
        Err(ConfigError::BufferTooLong)
    } else {
        Ok(())
    }
}

/// The boundary check accepts exactly the valid configurations.
pub proof fn lemma_validate_iff_valid(c: ConfigView)
    ensures
        spec_validate(c) is Ok <==> valid_config(c),
{
}

/// Checks a submitted configuration against the validity rules, reporting
/// the first rule it breaks.
pub fn validate_config(c: &Config) -> (r: Result<(), ConfigError>)
    ensures
        r == spec_validate(c@),
        r is Ok <==> valid_config(c@),
{
    if c.bpm == 0 {
        return Err(ConfigError::NonPositiveTempo);
    }
    if c.bpm > BPM_MAX {
        return Err(ConfigError::TempoTooHigh);
    }
    if c.beats_to_loop > BEATS_TO_LOOP_MAX {
        return Err(ConfigError::LoopTooLong);
    }
    if c.click_volume > VOLUME_MAX {
        return Err(ConfigError::VolumeTooHigh);
    }
    if c.audio_in_gain > GAIN_MAX {
        return Err(ConfigError::GainTooHigh);
    }
    if c.buffer_compensation > COMPENSATION_MAX {
        return Err(ConfigError::CompensationTooHigh);
    }
    if !check_rhythm(&c.audio_subdivisions) {
        return Err(ConfigError::PatternInvalid);
    }
    let num: u64 = c.beats_to_loop * SAMPLE_RATE * 120 + c.bpm / 2;
    if num / c.bpm > LOOP_LEN_MAX {
        return Err(ConfigError::BufferTooLong);
    }
    Ok(())
}

/// Checks the pattern part of the validity rules.
fn check_rhythm(r: &ParserRhythm) -> (ok: bool)
    ensures
        ok == valid_rhythm(r@),
{
    if r.notes.len() > MAX_ONSETS {
        return false;
    }
    if r.end < MIN_CYCLE_TICKS {
        return false;
    }
    if r.notes.len() > 0 && r.notes[r.notes.len() - 1].time >= r.end {
        return false;
    }
    let mut i: usize = 1;
    while i < r.notes.len()
        invariant
            1 <= i,
            forall|p: int, q: int| 0 <= p <= q < i && q < r.notes@.len() ==> r@.notes[p]
                <= r@.notes[q],
        decreases r.notes.len() - i,
    {
        if r.notes[i - 1].time > r.notes[i].time {
            proof {
                assert(r@.notes[i - 1] > r@.notes[i as int]);
                assert(!sorted(r@.notes));
            }
            return false;
        }
        i += 1;
    }
    proof {
        assert(sorted(r@.notes)) by {
            assert(forall|p: int, q: int|
                0 <= p <= q < r@.notes.len() ==> r@.notes[p] <= r@.notes[q]);
        }
    }
    true
}

/// The configuration the engine starts from, as a mathematical value.
pub open spec fn spec_default_config() -> ConfigView {
    ConfigView {
        bpm: 91_000,
        beats_to_loop: 4_000,
        looping_on: false,
        click_on: true,
        click_toggle: false,
        click_volume: 300,
        drum_on: true,
        play_file: true,
        visual_monitor_on: true,
        audio_monitor_on: false,
        audio_in_gain: 1000,
        buffer_compensation: 4330,
        audio_subdivisions: RhythmView {
            notes: seq![0u64, 1_323_000_000u64],
            start: 0,
            end: TICKS_PER_BEAT,
        },
    }
}

impl Config {
    /// An exact copy, for resubmitting or editing a configuration.
    pub fn duplicate(&self) -> (c: Config)
        ensures
            c@ == self@,
    {
        let mut notes: Vec<Note> = Vec::new();
        let mut i: usize = 0;
        while i < self.audio_subdivisions.notes.len()
            invariant
                i <= self.audio_subdivisions.notes@.len(),
                notes@ == self.audio_subdivisions.notes@.take(i as int),
            decreases self.audio_subdivisions.notes.len() - i,
        {
            notes.push(self.audio_subdivisions.notes[i]);
            proof {
                assert(notes@ =~= self.audio_subdivisions.notes@.take(i + 1));
            }
            i += 1;
        }
        proof {
            assert(notes@ =~= self.audio_subdivisions.notes@);
        }
        let c = Config {
            bpm: self.bpm,
            beats_to_loop: self.beats_to_loop,
            looping_on: self.looping_on,
            click_on: self.click_on,
            click_toggle: self.click_toggle,
            click_volume: self.click_volume,
            drum_on: self.drum_on,
            play_file: self.play_file,
            visual_monitor_on: self.visual_monitor_on,
            audio_monitor_on: self.audio_monitor_on,
            audio_in_gain: self.audio_in_gain,
            buffer_compensation: self.buffer_compensation,
            audio_subdivisions: ParserRhythm {
                notes,
                start: self.audio_subdivisions.start,
                end: self.audio_subdivisions.end,
            },
        };
        proof {
            assert(c@ =~= self@);
        }
        c
    }
}

} // verus!
