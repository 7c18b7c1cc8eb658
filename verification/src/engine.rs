//! The engine: all render-path state and the per-sample signal path, plus
//! the control-side operations (configuration replacement, beat reset,
//! telemetry drain, backing-track replacement) that mutate it between
//! render blocks.

use vstd::prelude::*;
use std::sync::Arc;
use crate::beat_bisect::{
    classify_accent, is_accent, spec_subdivision_index, subdivision_index,
};
use crate::config::{
    loop_len_spec, spec_default_config, spec_validate, valid_config, validate_config, Config,
    ConfigError, ConfigView,
};
use crate::constants::{
    default_config, AMP_CAP, AMP_ONE, BEAT_TICKS_MAX, CLICK_LONG, CLICK_SHORT, GAIN_MAX, LOOP_CAP,
    MAKEUP_GAIN, OUT_CAP, TICKS_PER_MILLI_BEAT,
};
use crate::get_loop_buffer_size::get_loop_buffer_size;
use crate::io_channels::{clamp_amp_seq, clamp_samples, frame_left_spec, make_buffers, Buffers};
use crate::loop_buffer::{samples_bounded, LoopBuffer};
use crate::structs::{BeatResetState, Mp3Buffer, SampleOutputBuffer};
use crate::triggers::{
    pool_mix, pool_step, pool_view, pool_wf, pool_pass, SoundingSample, VoiceView,
};

verus! {

/// All state the render path and the control side share.
pub struct Engine {
    pub config: Config,
    pub loop_buffer: LoopBuffer,
    pub mp3: Mp3Buffer,
    pub cue: Arc<Vec<i64>>,
    pub sounding_samples: Vec<SoundingSample>,
    pub beat: u64,
    pub last_beat: i64,
    pub click_sound_counter: u32,
    pub reset: BeatResetState,
    pub telemetry: SampleOutputBuffer,
    pub inputs: Buffers,
}

/// The engine's state as mathematical values.
#[verifier::ext_equal]
pub struct EngineView {
    pub config: ConfigView,
    pub loop_data: Seq<i64>,
    pub loop_pos: int,
    pub mp3_data: Seq<i64>,
    pub mp3_pos: int,
    pub cue: Seq<i64>,
    pub voices: Seq<VoiceView>,
    pub beat: u64,
    pub last_beat: i64,
    pub click_counter: u32,
    pub reset_requested: bool,
    pub telemetry: Seq<(i64, i64)>,
    pub in_left: Seq<i64>,
    pub in_right: Seq<i64>,
}

impl View for Engine {
    type V = EngineView;

    open spec fn view(&self) -> EngineView {
        EngineView {
            config: self.config@,
            loop_data: self.loop_buffer.buffer@,
            loop_pos: self.loop_buffer.pos as int,
            mp3_data: self.mp3.buffer@,
            mp3_pos: self.mp3.pos as int,
            cue: self.cue@,
            voices: pool_view(self.sounding_samples@),
            beat: self.beat,
            last_beat: self.last_beat,
            click_counter: self.click_sound_counter,
            reset_requested: self.reset.requested,
            telemetry: self.telemetry.buffer@,
            in_left: self.inputs.left@,
            in_right: self.inputs.right@,
        }
    }
}

/// The engine's well-formedness: a valid configuration, the loop buffer
/// sized from it with its cursor inside, the backing-track cursor inside
/// its buffer, every stored sample inside its headroom, a saturating beat
/// clock, and a click gate no longer than the accent gate.
pub open spec fn engine_inv(v: EngineView) -> bool {
    &&& valid_config(v.config)
    &&& v.loop_data.len() == loop_len_spec(v.config)
    &&& if v.loop_data.len() == 0 {
        v.loop_pos == 0
    } else {
        0 <= v.loop_pos < v.loop_data.len()
    }
    &&& samples_bounded(v.loop_data, LOOP_CAP)
    &&& if v.mp3_data.len() == 0 {
        v.mp3_pos == 0
    } else {
        0 <= v.mp3_pos < v.mp3_data.len()
    }
    &&& samples_bounded(v.mp3_data, AMP_CAP)
    &&& samples_bounded(v.cue, AMP_CAP)
    &&& pool_wf(v.voices)
    &&& v.beat <= BEAT_TICKS_MAX
    &&& v.click_counter <= CLICK_LONG
    &&& samples_bounded(v.in_left, AMP_CAP)
    &&& samples_bounded(v.in_right, AMP_CAP)
}

/// An input sample scaled by a gain in thousandths, truncated toward zero.
pub open spec fn scale_gain(s: i64, gain: u64) -> int {
    if s >= 0 {
        (s * gain) / 1000
    } else {
        -(((-s) * gain) / 1000)
    }
}

/// Applies the input gain to one captured sample.
fn apply_gain(s: i64, gain: u64) -> (r: i64)
    requires
        -AMP_CAP <= s <= AMP_CAP,
        gain <= GAIN_MAX,
    ensures
        r == scale_gain(s, gain),
        -LOOP_CAP <= r <= LOOP_CAP,
{
    proof {
        if s >= 0 {
            vstd::arithmetic::mul::lemma_mul_inequality(s as int, AMP_CAP as int, gain as int);
            vstd::arithmetic::mul::lemma_mul_inequality(
                gain as int,
                GAIN_MAX as int,
                AMP_CAP as int,
            );
            vstd::arithmetic::div_mod::lemma_div_is_ordered(s * gain, AMP_CAP * GAIN_MAX, 1000);
            vstd::arithmetic::mul::lemma_mul_nonnegative(s as int, gain as int);
            vstd::arithmetic::div_mod::lemma_div_pos_is_pos(s * gain, 1000);
        } else {
            vstd::arithmetic::mul::lemma_mul_inequality(-s, AMP_CAP as int, gain as int);
            vstd::arithmetic::mul::lemma_mul_inequality(
                gain as int,
                GAIN_MAX as int,
                AMP_CAP as int,
            );
            vstd::arithmetic::div_mod::lemma_div_is_ordered((-s) * gain, AMP_CAP * GAIN_MAX, 1000);
            vstd::arithmetic::mul::lemma_mul_nonnegative(-s, gain as int);
            vstd::arithmetic::div_mod::lemma_div_pos_is_pos((-s) * gain, 1000);
        }
    }
    if s >= 0 {
        ((s as u64 * gain) / 1000) as i64
    } else {
        -((((-s) as u64 * gain) / 1000) as i64)
    }
}

/// The random click amplitude: a uniform draw scaled by the click volume,
/// clamped to full scale.
pub open spec fn click_amp_spec(noise: u16, volume: u64) -> int {
    let r = (noise as int) * (volume as int) / 1000;
    if r > AMP_ONE {
        AMP_ONE as int
    } else {
        r
    }
}

/// Scales one noise draw by the click volume, clamping at full scale.
fn click_amp(noise: u16, volume: u64) -> (r: i64)
    requires
        volume <= 1000000,
    ensures
        r == click_amp_spec(noise, volume),
        0 <= r <= AMP_ONE,
{
    proof {
        vstd::arithmetic::mul::lemma_mul_inequality(noise as int, 65535int, volume as int);
        vstd::arithmetic::mul::lemma_mul_inequality(volume as int, 1000000int, 65535int);
        vstd::arithmetic::mul::lemma_mul_nonnegative(noise as int, volume as int);
    }
    let raw: u64 = (noise as u64 * volume) / 1000;
    if raw > AMP_ONE as u64 {
        AMP_ONE
    } else {
        raw as i64
    }
}

/// Whether the click-toggle window admits the click at this beat: inside
/// the first half of each doubled loop-length window. An empty window (a
/// zero loop length) admits nothing.
pub open spec fn in_click_window(beat: u64, beats_to_loop: u64) -> bool {
    let l = (beats_to_loop * TICKS_PER_MILLI_BEAT) as int;
    if l == 0 {
        false
    } else {
        (beat as int) % (2 * l) < l
    }
}

/// Tests the click-toggle window.
fn check_click_window(beat: u64, beats_to_loop: u64) -> (b: bool)
    requires
        beats_to_loop <= 0x100_0000_0000u64,
    ensures
        b == in_click_window(beat, beats_to_loop),
{
    let l: u64 = beats_to_loop * TICKS_PER_MILLI_BEAT;
    if l == 0 {
        false
    } else {
        beat % (2 * l) < l
    }
}

/// A mixed sample clamped into the output headroom.
pub open spec fn clamp_out(x: int) -> i64 {
    if x > OUT_CAP {
        OUT_CAP
    } else if x < -OUT_CAP {
        (-OUT_CAP) as i64
    } else {
        x as i64
    }
}

/// Clamps the mixed total into the output headroom.
fn clamp_to_out(x: i128) -> (r: i64)
    ensures
        r == clamp_out(x as int),
{
    if x > OUT_CAP as i128 {
        OUT_CAP
    } else if x < -(OUT_CAP as i128) {
        -OUT_CAP
    } else {
        x as i64
    }
}

/// The beat clock one sample later: `bpm` milli beats per minute advance
/// the clock by exactly `bpm` ticks, saturating at the clock's maximum.
pub open spec fn advance_beat_spec(beat: u64, bpm: u64) -> u64 {
    if beat + bpm <= BEAT_TICKS_MAX {
        (beat + bpm) as u64
    } else {
        BEAT_TICKS_MAX
    }
}

/// Monitor-and-loop phase of one channel sample: the scaled input is
/// monitored into the audible and visual mixes by their own flags; with
/// looping on, the loop cell at the compensated position joins the audible
/// mix, the cell at the live position joins the visual mix, and the input
/// is written at the live position (silence when looping is off); the
/// cursor then advances one cell. Yields the state, the audible sum, and
/// the visual sum.
pub open spec fn spec_loop_phase(v: EngineView, input: i64) -> (EngineView, int, int) {
    let cfg = v.config;
    let s = scale_gain(input, cfg.audio_in_gain) as i64;
    let has_loop = v.loop_data.len() > 0;
    let comp_pos = if has_loop {
        (v.loop_pos + 2 * cfg.buffer_compensation) % (v.loop_data.len() as int)
    } else {
        0
    };
    let audio_out = (if cfg.audio_monitor_on {
        s as int
    } else {
        0
    }) + (if cfg.looping_on && has_loop {
        v.loop_data[comp_pos] as int
    } else {
        0
    });
    let visual_out = (if cfg.visual_monitor_on {
        s as int
    } else {
        0
    }) + (if cfg.looping_on && has_loop {
        v.loop_data[v.loop_pos] as int
    } else {
        0
    });
    let loop_data1 = if has_loop {
        v.loop_data.update(v.loop_pos, if cfg.looping_on { s } else { 0i64 })
    } else {
        v.loop_data
    };
    let loop_pos1 = if has_loop {
        (v.loop_pos + 1) % (v.loop_data.len() as int)
    } else {
        0
    };
    (
        EngineView {
            loop_data: loop_data1,
            loop_pos: loop_pos1,
            ..v
        },
        audio_out,
        visual_out,
    )
}

/// The backing track's contribution to one channel sample: with the play
/// flag on, the sample under the cursor; both channels of a frame read the
/// same cursor.
pub open spec fn spec_backing_term(v: EngineView) -> int {
    if v.config.play_file && v.mp3_data.len() > 0 {
        v.mp3_data[v.mp3_pos] as int
    } else {
        0
    }
}

/// The backing-track cursor one frame later: advanced once per frame, not
/// per channel, so the stereo channels stay phase-locked; it wraps at the
/// end of the track.
pub open spec fn spec_advance_backing(v: EngineView) -> EngineView {
    EngineView {
        mp3_pos: if v.mp3_data.len() == 0 {
            0
        } else if v.mp3_pos + 1 >= v.mp3_data.len() {
            0
        } else {
            v.mp3_pos + 1
        },
        ..v
    }
}

/// Trigger-pool phase: every live voice contributes its cursor sample to
/// the mix (when the drum flag is on) and advances; exhausted voices leave
/// the pool.
pub open spec fn spec_voices_phase(v: EngineView) -> (EngineView, int) {
    (
        EngineView { voices: pool_step(v.voices), ..v },
        if v.config.drum_on {
            pool_mix(v.voices)
        } else {
            0
        },
    )
}

/// Telemetry phase: appends the visual beat position (the beat clock less
/// the compensation delay) and the magnitude of the visual mix.
pub open spec fn spec_telemetry_phase(v: EngineView, visual_out: int) -> EngineView {
    let visual_beat = v.beat - v.config.buffer_compensation * v.config.bpm;
    EngineView {
        telemetry: v.telemetry.push(
            (visual_beat as i64, (if visual_out >= 0 {
                visual_out
            } else {
                -visual_out
            }) as i64),
        ),
        ..v
    }
}

/// Subdivision-trigger phase: when the subdivision index moved since the
/// previous sample, a fresh voice over the cue buffer is enqueued and the
/// click gate is armed, long for an accent and short otherwise.
pub open spec fn spec_trigger_phase(v: EngineView) -> EngineView {
    let idx = spec_subdivision_index(v.config.audio_subdivisions, v.beat);
    if idx != v.last_beat {
        EngineView {
            voices: v.voices.push(VoiceView { data: v.cue, pos: 0 }),
            last_beat: idx as i64,
            click_counter: if is_accent(v.config.audio_subdivisions, idx) {
                CLICK_LONG
            } else {
                CLICK_SHORT
            },
            ..v
        }
    } else {
        v
    }
}

/// Click phase: while the click gate is armed it counts down one per channel
/// sample, and the bounded random click joins the mix when the click flag
/// is on and the click-toggle window admits it.
pub open spec fn spec_click_phase(v: EngineView, noise: u16) -> (EngineView, int) {
    if v.click_counter > 0 {
        let term: int = if v.config.click_on && (!v.config.click_toggle || in_click_window(
            v.beat,
            v.config.beats_to_loop,
        )) {
            click_amp_spec(noise, v.config.click_volume)
        } else {
            0
        };
        (
            EngineView { click_counter: (v.click_counter - 1) as u32, ..v },
            term,
        )
    } else {
        (v, 0)
    }
}

/// The engine after one frame's transport pop: the front sample leaves
/// each queue (nothing leaves an empty queue).
pub open spec fn spec_popped_view(v: EngineView) -> EngineView {
    EngineView {
        in_left: if v.in_left.len() > 0 {
            v.in_left.drop_first()
        } else {
            v.in_left
        },
        in_right: if v.in_right.len() > 0 {
            v.in_right.drop_first()
        } else {
            v.in_right
        },
        ..v
    }
}

/// One whole frame of the render step: the transported frame (with the
/// channel transport's underrun fallback), one channel step per stereo
/// channel, then one advance each of the backing-track cursor and the beat
/// clock — once per frame, not per channel, so the stereo channels stay
/// phase-locked.
pub open spec fn spec_frame_step(v: EngineView, n0: u16, n1: u16) -> (EngineView, i64, i64) {
    let l_in = frame_left_spec(v.in_left);
    let r_in = if v.in_right.len() > 0 {
        v.in_right[0]
    } else {
        l_in
    };
    let s0 = spec_channel_step(spec_popped_view(v), l_in, n0);
    let s1 = spec_channel_step(s0.st, r_in, n1);
    let v2 = spec_advance_backing(s1.st);
    (
        EngineView { beat: advance_beat_spec(v2.beat, v2.config.bpm), ..v2 },
        s0.out,
        s1.out,
    )
}

/// The block boundary: a pending beat reset zeroes the beat clock and the
/// backing-track cursor and is cleared; otherwise nothing changes.
pub open spec fn spec_begin_block(v: EngineView) -> EngineView {
    if v.reset_requested {
        EngineView { beat: 0, mp3_pos: 0, reset_requested: false, ..v }
    } else {
        v
    }
}

/// A sequence of `n` zero samples.
pub open spec fn zero_seq(n: int) -> Seq<i64> {
    Seq::new(n as nat, |i: int| 0i64)
}

/// A loop buffer resized to `n` samples: the leading samples that fit are
/// kept, the rest is zero-extended.
pub open spec fn resize_seq(s: Seq<i64>, n: int) -> Seq<i64> {
    if n <= s.len() {
        s.take(n)
    } else {
        s + zero_seq(n - s.len())
    }
}

/// A fresh engine's state over a cue buffer.
pub open spec fn spec_initial(cue: Seq<i64>) -> EngineView {
    EngineView {
        config: spec_default_config(),
        loop_data: zero_seq(loop_len_spec(spec_default_config())),
        loop_pos: 0,
        mp3_data: Seq::empty(),
        mp3_pos: 0,
        cue: cue,
        voices: seq![VoiceView { data: cue, pos: 0 }],
        beat: 0,
        last_beat: 0,
        click_counter: 0,
        reset_requested: false,
        telemetry: Seq::empty(),
        in_left: Seq::empty(),
        in_right: Seq::empty(),
    }
}

/// A replacement configuration applied to the engine: the configuration is
/// swapped in; when its tempo, loop length, or compensation differ from
/// the active values, the loop buffer is resized from it and the cursor
/// reset, and otherwise the buffer is untouched.
pub open spec fn spec_apply_config(v: EngineView, c: ConfigView) -> EngineView {
    let resize = c.bpm != v.config.bpm || c.beats_to_loop != v.config.beats_to_loop
        || c.buffer_compensation != v.config.buffer_compensation;
    if resize {
        EngineView {
            config: c,
            loop_data: resize_seq(v.loop_data, loop_len_spec(c)),
            loop_pos: 0,
            ..v
        }
    } else {
        EngineView { config: c, ..v }
    }
}

/// What one channel sample of the render step produces: the engine state
/// after it and the mixed output sample.
#[verifier::ext_equal]
pub struct ChannelStep {
    pub st: EngineView,
    pub out: i64,
}

/// One channel sample of the render step, in the fixed order of the signal
/// path: monitor and loop, backing track, trigger pool, telemetry,
/// subdivision trigger, click gate; the output sample is the audible sum
/// under the make-up gain plus the backing-track, pool, and click terms,
/// clamped into the output headroom.
pub open spec fn spec_channel_step(v: EngineView, input: i64, noise: u16) -> ChannelStep {
    let phase1 = spec_loop_phase(v, input);
    let audio_out = phase1.1;
    let visual_out = phase1.2;
    let mp3_term = spec_backing_term(phase1.0);
    let phase3 = spec_voices_phase(phase1.0);
    let drums = phase3.1;
    let v4 = spec_telemetry_phase(phase3.0, visual_out);
    let v5 = spec_trigger_phase(v4);
    let phase6 = spec_click_phase(v5, noise);
    ChannelStep {
        st: phase6.0,
        out: clamp_out(audio_out * MAKEUP_GAIN + mp3_term + drums + phase6.1),
    }
}

impl Engine {
    /// Monitor-and-loop phase, per [`spec_loop_phase`].
    fn step_loop(&mut self, input: i64) -> (r: (i64, i64))
        requires
            engine_inv(old(self)@),
            -AMP_CAP <= input <= AMP_CAP,
        ensures
            engine_inv(final(self)@),
            final(self)@ == spec_loop_phase(old(self)@, input).0,
            r.0 == spec_loop_phase(old(self)@, input).1,
            r.1 == spec_loop_phase(old(self)@, input).2,
            -2 * LOOP_CAP <= r.0 <= 2 * LOOP_CAP,
            -2 * LOOP_CAP <= r.1 <= 2 * LOOP_CAP,
    {
        let ghost v0 = self@;
        let sample = apply_gain(input, self.config.audio_in_gain);
        let mut audio_out: i64 = 0;
        let mut visual_out: i64 = 0;
        if self.config.audio_monitor_on {
            audio_out += sample;
        }
        if self.config.visual_monitor_on {
            visual_out += sample;
        }
        if self.loop_buffer.buffer.len() > 0 {
            let p = self.loop_buffer.pos;
            if self.config.looping_on {
                let comp_pos = self.loop_buffer.offset_pos(self.config.buffer_compensation * 2);
                audio_out += self.loop_buffer.read(comp_pos);
                visual_out += self.loop_buffer.read(p);
                self.loop_buffer.write(p, sample);
            } else {
                self.loop_buffer.write(p, 0);
            }
            self.loop_buffer.advance();
        }
        proof {
            assert(self@ =~~= spec_loop_phase(v0, input).0);
        }
        (audio_out, visual_out)
    }

    /// The backing track's contribution, per [`spec_backing_term`].
    fn backing_term(&self) -> (term: i64)
        requires
            engine_inv(self@),
        ensures
            term == spec_backing_term(self@),
            -AMP_CAP <= term <= AMP_CAP,
    {
        if self.config.play_file && self.mp3.buffer.len() > 0 {
            self.mp3.buffer[self.mp3.pos]
        } else {
            0
        }
    }

    /// Advances the backing-track cursor once per frame, per
    /// [`spec_advance_backing`].
    fn advance_backing(&mut self)
        requires
            engine_inv(old(self)@),
        ensures
            engine_inv(final(self)@),
            final(self)@ == spec_advance_backing(old(self)@),
    {
        if self.mp3.buffer.len() > 0 {
            self.mp3.pos = if self.mp3.pos + 1 >= self.mp3.buffer.len() {
                0
            } else {
                self.mp3.pos + 1
            };
        }
        proof {
            assert(self@ =~~= spec_advance_backing(old(self)@));
        }
    }

    /// Trigger-pool phase, per [`spec_voices_phase`].
    fn step_voices(&mut self) -> (drums: i128)
        requires
            engine_inv(old(self)@),
        ensures
            engine_inv(final(self)@),
            final(self)@ == spec_voices_phase(old(self)@).0,
            drums == spec_voices_phase(old(self)@).1,
            -0x10000000000000000000000000i128 <= drums <= 0x10000000000000000000000000i128,
    {
        let ghost v0 = self@;
        let n = self.sounding_samples.len();
        let drums = pool_pass(&mut self.sounding_samples, self.config.drum_on);
        proof {
            vstd::arithmetic::mul::lemma_mul_inequality(n as int, 0xffffffffffffffffint, AMP_CAP as int);
            vstd::arithmetic::mul::lemma_mul_nonnegative(n as int, AMP_CAP as int);
            assert(self@ =~~= spec_voices_phase(v0).0);
        }
        drums
    }

    /// Telemetry phase, per [`spec_telemetry_phase`].
    fn step_telemetry(&mut self, visual_out: i64)
        requires
            engine_inv(old(self)@),
            -2 * LOOP_CAP <= visual_out <= 2 * LOOP_CAP,
        ensures
            engine_inv(final(self)@),
            final(self)@ == spec_telemetry_phase(old(self)@, visual_out as int),
    {
        let ghost v0 = self@;
        proof {
            let c = self.config@.buffer_compensation as int;
            let b = self.config@.bpm as int;
            vstd::arithmetic::mul::lemma_mul_inequality(c, 1073741824int, b);
            vstd::arithmetic::mul::lemma_mul_inequality(b, 10000000int, 1073741824int);
            vstd::arithmetic::mul::lemma_mul_nonnegative(c, b);
        }
        let visual_beat: i64 = self.beat as i64 - (self.config.buffer_compensation as i64)
            * (self.config.bpm as i64);
        let visual_abs: i64 = if visual_out >= 0 {
            visual_out
        } else {
            -visual_out
        };
        self.telemetry.push(visual_beat, visual_abs);
        proof {
            assert(self@ =~~= spec_telemetry_phase(v0, visual_out as int));
        }
    }

    /// Subdivision-trigger phase, per [`spec_trigger_phase`].
    fn step_trigger(&mut self)
        requires
            engine_inv(old(self)@),
        ensures
            engine_inv(final(self)@),
            final(self)@ == spec_trigger_phase(old(self)@),
    {
        let ghost v0 = self@;
        let idx = subdivision_index(&self.config.audio_subdivisions, self.beat);
        if idx != self.last_beat {
            let voice = SoundingSample::start(&self.cue);
            self.sounding_samples.push(voice);
            proof {
                assert(pool_view(self.sounding_samples@) =~= v0.voices.push(
                    VoiceView { data: v0.cue, pos: 0 },
                ));
            }
            if classify_accent(&self.config.audio_subdivisions, idx) {
                self.click_sound_counter = CLICK_LONG;
            } else {
                self.click_sound_counter = CLICK_SHORT;
            }
            self.last_beat = idx;
        }
        proof {
            assert(self@ =~~= spec_trigger_phase(v0));
        }
    }

    /// Click phase, per [`spec_click_phase`].
    fn step_click(&mut self, noise: u16) -> (click: i64)
        requires
            engine_inv(old(self)@),
        ensures
            engine_inv(final(self)@),
            final(self)@ == spec_click_phase(old(self)@, noise).0,
            click == spec_click_phase(old(self)@, noise).1,
            0 <= click <= AMP_ONE,
    {
        let ghost v0 = self@;
        let mut click: i64 = 0;
        if self.click_sound_counter > 0 {
            self.click_sound_counter -= 1;
            let in_loop = check_click_window(self.beat, self.config.beats_to_loop);
            if self.config.click_on && (!self.config.click_toggle || in_loop) {
                click = click_amp(noise, self.config.click_volume);
            }
        }
        proof {
            assert(self@ =~~= spec_click_phase(v0, noise).0);
        }
        click
    }

    /// Renders one whole frame: takes one transported sample per channel
    /// (with the underrun fallback), renders both channels, and advances
    /// the backing-track cursor and the beat clock once each. The two
    /// noise draws are random, so the result is pinned for every value
    /// they can take.
    pub fn render_frame(&mut self) -> (out: (i64, i64))
        requires
            engine_inv(old(self)@),
        ensures
            engine_inv(final(self)@),
            exists|n0: u16, n1: u16|
                {
                    let r = #[trigger] spec_frame_step(old(self)@, n0, n1);
                    final(self)@ == r.0 && out.0 == r.1 && out.1 == r.2
                },
    {
        let ghost v0 = self@;
        let n0: u16 = rand::random();
        let n1: u16 = rand::random();
        let frame = self.inputs.pop_frame();
        let ghost v1 = self@;
        proof {
            assert(v1 =~~= spec_popped_view(v0));
        }
        let out_l = self.render_channel(frame.0, n0);
        let out_r = self.render_channel(frame.1, n1);
        self.advance_backing();
        self.advance_beat();
        proof {
            let r = spec_frame_step(v0, n0, n1);
            assert(self@ == r.0 && out_l == r.1 && out_r == r.2);
        }
        (out_l, out_r)
    }

    /// Advances the beat clock by one sample at the configured tempo.
    fn advance_beat(&mut self)
        requires
            engine_inv(old(self)@),
        ensures
            engine_inv(final(self)@),
            final(self)@ == (EngineView {
                beat: advance_beat_spec(old(self)@.beat, old(self)@.config.bpm),
                ..old(self)@
            }),
    {
        if self.beat <= BEAT_TICKS_MAX - self.config.bpm {
            self.beat = self.beat + self.config.bpm;
        } else {
            self.beat = BEAT_TICKS_MAX;
        }
        proof {
            assert(self@ =~~= (EngineView {
                beat: advance_beat_spec(old(self)@.beat, old(self)@.config.bpm),
                ..old(self)@
            }));
        }
    }

    /// Consumes the one-shot beat-reset request at a block boundary:
    /// exactly when one is pending, the beat clock and the backing-track
    /// cursor are zeroed, and the request is cleared.
    pub fn begin_block(&mut self)
        requires
            engine_inv(old(self)@),
        ensures
            engine_inv(final(self)@),
            final(self)@ == spec_begin_block(old(self)@),
    {
        let was = self.reset.consume();
        if was {
            self.beat = 0;
            self.mp3.pos = 0;
        }
        proof {
            assert(self@ =~~= spec_begin_block(old(self)@));
        }
    }

    /// Queues one captured input sample for a channel (0 = left,
    /// 1 = right), clamped into the converter headroom.
    pub fn push_input(&mut self, channel: usize, sample: i64)
        requires
            engine_inv(old(self)@),
            channel < 2,
        ensures
            engine_inv(final(self)@),
            channel == 0 ==> final(self)@ == (EngineView {
                in_left: old(self)@.in_left.push(crate::io_channels::clamp_amp_spec(sample)),
                ..old(self)@
            }),
            channel == 1 ==> final(self)@ == (EngineView {
                in_right: old(self)@.in_right.push(crate::io_channels::clamp_amp_spec(sample)),
                ..old(self)@
            }),
    {
        self.inputs.push(channel, sample);
        proof {
            if channel == 0 {
                assert(self@ =~~= (EngineView {
                    in_left: old(self)@.in_left.push(crate::io_channels::clamp_amp_spec(sample)),
                    ..old(self)@
                }));
            } else {
                assert(self@ =~~= (EngineView {
                    in_right: old(self)@.in_right.push(crate::io_channels::clamp_amp_spec(sample)),
                    ..old(self)@
                }));
            }
        }
    }

    /// A fresh engine over the default configuration: a silent loop sized
    /// from it, no backing track, empty transport, and one initial voice
    /// over the cue buffer.
    pub fn new(cue_samples: Vec<i64>) -> (e: Engine)
        ensures
            engine_inv(e@),
            e@ == spec_initial(clamp_amp_seq(cue_samples@)),
    {
        let config = default_config();
        let n = get_loop_buffer_size(&config);
        let loop_buffer = LoopBuffer::new(n);
        let cue = Arc::new(clamp_samples(cue_samples));
        let mut sounding_samples: Vec<SoundingSample> = Vec::new();
        let voice = SoundingSample::start(&cue);
        sounding_samples.push(voice);
        let e = Engine {
            config,
            loop_buffer,
            mp3: Mp3Buffer { buffer: Vec::new(), pos: 0 },
            cue,
            sounding_samples,
            beat: 0,
            last_beat: 0,
            click_sound_counter: 0,
            reset: BeatResetState::new(),
            telemetry: SampleOutputBuffer::new(),
            inputs: make_buffers(),
        };
        proof {
            assert(e@.loop_data =~= spec_initial(clamp_amp_seq(cue_samples@)).loop_data);
            assert(e@.voices =~= spec_initial(clamp_amp_seq(cue_samples@)).voices);
            assert(e@ =~~= spec_initial(clamp_amp_seq(cue_samples@)));
        }
        e
    }

    /// Replaces the whole configuration, rejecting a malformed one and
    /// keeping the prior one in that case. When the accepted tempo, loop
    /// length, or compensation differ from the active values, the loop
    /// buffer is resized from the new configuration and its cursor reset;
    /// all other fields take effect with no buffer side effects.
    pub fn set_config(&mut self, new_config: Config) -> (r: Result<(), ConfigError>)
        requires
            engine_inv(old(self)@),
        ensures
            engine_inv(final(self)@),
            r == spec_validate(new_config@),
            r is Ok ==> final(self)@ == spec_apply_config(old(self)@, new_config@),
            r is Err ==> final(self)@ == old(self)@,
    {
        if let Err(e) = validate_config(&new_config) {
            return Err(e);
        }
        let should_update_loop_buffer = new_config.bpm != self.config.bpm || new_config.beats_to_loop
            != self.config.beats_to_loop || new_config.buffer_compensation
            != self.config.buffer_compensation;
        self.config = new_config;
        if should_update_loop_buffer {
            let new_buffer_size = get_loop_buffer_size(&self.config);
            self.loop_buffer.resize_to(new_buffer_size);
            proof {
                assert(self@.loop_data =~= resize_seq(
                    old(self)@.loop_data,
                    loop_len_spec(self.config@),
                ));
                assert(self@ =~~= spec_apply_config(old(self)@, self.config@));
            }
        } else {
            proof {
                assert(self@ =~~= spec_apply_config(old(self)@, self.config@));
            }
        }
        Ok(())
    }

    /// Arms the one-shot beat reset; the next render block consumes it.
    pub fn reset_beat(&mut self)
        requires
            engine_inv(old(self)@),
        ensures
            engine_inv(final(self)@),
            final(self)@ == (EngineView { reset_requested: true, ..old(self)@ }),
    {
        self.reset.request();
        proof {
            assert(self@ =~~= (EngineView { reset_requested: true, ..old(self)@ }));
        }
    }

    /// Hands out every telemetry entry recorded so far and empties the
    /// sink.
    pub fn get_samples(&mut self) -> (out: Vec<(i64, i64)>)
        requires
            engine_inv(old(self)@),
        ensures
            engine_inv(final(self)@),
            out@ == old(self)@.telemetry,
            final(self)@ == (EngineView { telemetry: Seq::empty(), ..old(self)@ }),
    {
        let out = self.telemetry.drain();
        proof {
            assert(self@ =~~= (EngineView { telemetry: Seq::empty(), ..old(self)@ }));
        }
        out
    }

    /// Replaces the backing track with a freshly decoded buffer, rewinds
    /// its cursor, and arms a beat reset so playback restarts in sync.
    pub fn set_mp3_buffer(&mut self, samples: Vec<i64>)
        requires
            engine_inv(old(self)@),
        ensures
            engine_inv(final(self)@),
            final(self)@ == (EngineView {
                mp3_data: clamp_amp_seq(samples@),
                mp3_pos: 0,
                reset_requested: true,
                ..old(self)@
            }),
    {
        let clamped = clamp_samples(samples);
        self.mp3.buffer = clamped;
        self.mp3.pos = 0;
        self.reset.request();
        proof {
            assert(self@ =~~= (EngineView {
                mp3_data: clamp_amp_seq(samples@),
                mp3_pos: 0,
                reset_requested: true,
                ..old(self)@
            }));
        }
    }

    /// Renders one channel of the current frame from one transported input
    /// sample and one noise draw, per [`spec_channel_step`].
    fn render_channel(&mut self, input: i64, noise: u16) -> (out: i64)
        requires
            engine_inv(old(self)@),
            -AMP_CAP <= input <= AMP_CAP,
        ensures
            engine_inv(final(self)@),
            final(self)@ == spec_channel_step(old(self)@, input, noise).st,
            out == spec_channel_step(old(self)@, input, noise).out,
    {
        let (audio_out, visual_out) = self.step_loop(input);
        let mp3_term = self.backing_term();
        let drums = self.step_voices();
        self.step_telemetry(visual_out);
        self.step_trigger();
        let click = self.step_click(noise);
        let channel: i128 = (audio_out as i128) * (MAKEUP_GAIN as i128) + mp3_term as i128 + drums
            + click as i128;
        clamp_to_out(channel)
    }
}

/// After any accepted change of tempo, loop length, or compensation, the
/// loop buffer has exactly the length derived from the new configuration
/// and its cursor is at the start.
pub proof fn lemma_resize_on_change(v: EngineView, c: ConfigView)
    requires
        valid_config(c),
        c.bpm != v.config.bpm || c.beats_to_loop != v.config.beats_to_loop
            || c.buffer_compensation != v.config.buffer_compensation,
    ensures
        spec_apply_config(v, c).loop_data.len() == loop_len_spec(c),
        spec_apply_config(v, c).loop_pos == 0,
{
    vstd::arithmetic::div_mod::lemma_div_pos_is_pos(
        (c.beats_to_loop * crate::constants::SAMPLE_RATE * 120 + c.bpm / 2) as int,
        c.bpm as int,
    );
}

/// Applying the same configuration twice changes nothing the second time:
/// in particular there is no second resize and no second cursor reset.
pub proof fn lemma_apply_config_idempotent(v: EngineView, c: ConfigView)
    ensures
        spec_apply_config(spec_apply_config(v, c), c) == spec_apply_config(v, c),
        spec_apply_config(spec_apply_config(v, c), c).loop_data == spec_apply_config(
            v,
            c,
        ).loop_data,
        spec_apply_config(spec_apply_config(v, c), c).loop_pos == spec_apply_config(v, c).loop_pos,
{
    let once = spec_apply_config(v, c);
    assert(once.config == c);
    assert(spec_apply_config(once, c) =~~= once);
}

/// A pending beat reset is consumed exactly once: the block boundary after
/// it zeroes the beat clock and the backing-track cursor whatever their
/// prior values, and a second boundary changes nothing.
pub proof fn lemma_reset_consumed_once(v: EngineView)
    requires
        v.reset_requested,
    ensures
        spec_begin_block(v).beat == 0,
        spec_begin_block(v).mp3_pos == 0,
        !spec_begin_block(v).reset_requested,
        spec_begin_block(spec_begin_block(v)) == spec_begin_block(v),
{
}

/// With the click generator off, a frame is independent of the noise
/// draws: every draw yields the same state and output samples.
pub proof fn lemma_frame_deterministic(v: EngineView, a0: u16, a1: u16, b0: u16, b1: u16)
    requires
        !v.config.click_on,
    ensures
        spec_frame_step(v, a0, a1) == spec_frame_step(v, b0, b1),
{
    let ra = spec_frame_step(v, a0, a1);
    let rb = spec_frame_step(v, b0, b1);
    assert(ra.0 =~~= rb.0);
}

} // verus!
