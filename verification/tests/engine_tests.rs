use practice_engine::config::{validate_config, Config, ConfigError, Note, ParserRhythm};
use practice_engine::constants::{default_config, TICKS_PER_BEAT};
use practice_engine::engine::Engine;
use practice_engine::get_loop_buffer_size::get_loop_buffer_size;

const HALF_BEAT: u64 = TICKS_PER_BEAT / 2;

fn eighth_pattern() -> ParserRhythm {
    ParserRhythm {
        notes: vec![Note { time: 0 }, Note { time: HALF_BEAT }],
        start: 0,
        end: TICKS_PER_BEAT,
    }
}

/// A configuration with every mix source off, unity gain, no compensation.
fn quiet_config(bpm: u64, beats_to_loop: u64) -> Config {
    Config {
        bpm,
        beats_to_loop,
        looping_on: false,
        click_on: false,
        click_toggle: false,
        click_volume: 0,
        drum_on: false,
        play_file: false,
        visual_monitor_on: false,
        audio_monitor_on: false,
        audio_in_gain: 1000,
        buffer_compensation: 0,
        audio_subdivisions: eighth_pattern(),
    }
}

#[test]
fn default_config_is_valid_and_sizes_loop() {
    let c = default_config();
    assert!(validate_config(&c).is_ok());
    assert_eq!(c.bpm, 91_000);
    assert_eq!(c.beats_to_loop, 4_000);
    // 4 / 91 * 44100 * 60 * 2, rounded: 21_168_045_500 / 91_000.
    assert_eq!(get_loop_buffer_size(&c), 232_615);
}

#[test]
fn loop_size_formula_exact() {
    // tempo = 120 bpm, 4 beats: 4 / 120 * 44100 * 60 * 2 = 176400 samples.
    let c = quiet_config(120_000, 4_000);
    assert_eq!(get_loop_buffer_size(&c), 176_400);
    // A zero-length loop is allowed.
    let c0 = quiet_config(120_000, 0);
    assert_eq!(get_loop_buffer_size(&c0), 0);
}

#[test]
fn config_rejections_by_rule() {
    let ok = quiet_config(120_000, 4_000);
    assert!(validate_config(&ok).is_ok());

    let mut c = quiet_config(0, 4_000);
    assert_eq!(validate_config(&c), Err(ConfigError::NonPositiveTempo));
    c = quiet_config(10_000_001, 4_000);
    assert_eq!(validate_config(&c), Err(ConfigError::TempoTooHigh));
    c = quiet_config(120_000, 1_099_511_627_777);
    assert_eq!(validate_config(&c), Err(ConfigError::LoopTooLong));
    c = quiet_config(120_000, 4_000);
    c.click_volume = 1001;
    assert_eq!(validate_config(&c), Err(ConfigError::VolumeTooHigh));
    c = quiet_config(120_000, 4_000);
    c.audio_in_gain = 1_000_001;
    assert_eq!(validate_config(&c), Err(ConfigError::GainTooHigh));
    c = quiet_config(120_000, 4_000);
    c.buffer_compensation = 1_073_741_825;
    assert_eq!(validate_config(&c), Err(ConfigError::CompensationTooHigh));
    c = quiet_config(120_000, 4_000);
    c.audio_subdivisions.notes = vec![Note { time: HALF_BEAT }, Note { time: 0 }];
    assert_eq!(validate_config(&c), Err(ConfigError::PatternInvalid));
    c = quiet_config(120_000, 4_000);
    c.audio_subdivisions.end = 0;
    assert_eq!(validate_config(&c), Err(ConfigError::PatternInvalid));
    c = quiet_config(1, 4_000);
    assert_eq!(validate_config(&c), Err(ConfigError::BufferTooLong));
}

#[test]
fn rejected_config_keeps_prior_one() {
    let mut e = Engine::new(vec![]);
    let prior_bpm = e.config.bpm;
    let r = e.set_config(quiet_config(0, 4_000));
    assert_eq!(r, Err(ConfigError::NonPositiveTempo));
    assert_eq!(e.config.bpm, prior_bpm);
}

#[test]
fn apply_config_is_idempotent() {
    // A second application of an identical configuration performs no
    // resize and no cursor reset.
    let mut e = Engine::new(vec![]);
    let cfg = quiet_config(100_000, 2_000);
    e.set_config(cfg.duplicate()).unwrap();
    let len_after_first = e.loop_buffer.buffer.len();
    // Move the cursor off the start.
    e.push_input(0, 11);
    e.push_input(1, 12);
    e.render_frame();
    let pos_before = e.loop_buffer.pos;
    assert!(pos_before != 0);
    e.set_config(cfg).unwrap();
    assert_eq!(e.loop_buffer.buffer.len(), len_after_first);
    assert_eq!(e.loop_buffer.pos, pos_before);
}

#[test]
fn changed_tempo_resizes_and_resets_cursor() {
    let mut e = Engine::new(vec![]);
    e.set_config(quiet_config(100_000, 2_000)).unwrap();
    e.push_input(0, 1);
    e.push_input(1, 1);
    e.render_frame();
    assert!(e.loop_buffer.pos != 0);
    e.set_config(quiet_config(120_000, 2_000)).unwrap();
    assert_eq!(e.loop_buffer.pos, 0);
    assert_eq!(e.loop_buffer.buffer.len(), 88_200);
}

#[test]
fn reset_request_zeroes_beat_and_backing_cursor_at_block_boundary() {
    let mut e = Engine::new(vec![]);
    let mut cfg = quiet_config(120_000, 4_000);
    cfg.play_file = true;
    e.set_config(cfg).unwrap();
    e.set_mp3_buffer(vec![3, 4, 5, 6, 7, 8, 9]);
    // Loading the track arms a reset; consume it at the next boundary.
    e.begin_block();
    for _ in 0..10 {
        e.render_frame();
    }
    assert!(e.beat > 0);
    assert!(e.mp3.pos != 0);
    // Arming the reset alone changes nothing until the block boundary.
    e.reset_beat();
    assert!(e.beat > 0);
    e.begin_block();
    assert_eq!(e.beat, 0);
    assert_eq!(e.mp3.pos, 0);
    // A second boundary with no pending request changes nothing.
    e.render_frame();
    let beat = e.beat;
    e.begin_block();
    assert_eq!(e.beat, beat);
}

#[test]
fn beat_clock_advances_per_frame_not_per_channel() {
    let mut e = Engine::new(vec![]);
    e.set_config(quiet_config(120_000, 4_000)).unwrap();
    e.render_frame();
    e.render_frame();
    // Each frame adds exactly bpm ticks, once for both channels.
    assert_eq!(e.beat, 240_000);
}

#[test]
fn loop_echo_end_to_end() {
    // tempo = 120 bpm, 4 beats, 44100 Hz: a 176400-sample loop. With
    // looping enabled and no compensation, every fed sample reappears,
    // under the make-up gain, exactly 176400 samples later.
    let mut e = Engine::new(vec![]);
    let mut cfg = quiet_config(120_000, 4_000);
    cfg.looping_on = true;
    e.set_config(cfg).unwrap();
    assert_eq!(e.loop_buffer.buffer.len(), 176_400);
    let frames = 88_200u64;
    let left = |f: u64| -> i64 { (f % 997) as i64 - 498 };
    let right = |f: u64| -> i64 { (f % 1009) as i64 - 504 };
    // First full cycle: the loop held silence, so the output is silent.
    for f in 0..frames {
        e.push_input(0, left(f));
        e.push_input(1, right(f));
        let (l, r) = e.render_frame();
        assert_eq!(l, 0);
        assert_eq!(r, 0);
    }
    e.get_samples();
    // Second cycle: the first cycle's input comes back, scaled by 12.
    for f in 0..frames {
        e.push_input(0, 0);
        e.push_input(1, 0);
        let (l, r) = e.render_frame();
        assert_eq!(l, 12 * left(f));
        assert_eq!(r, 12 * right(f));
    }
}

#[test]
fn monitor_passes_input_through() {
    let mut e = Engine::new(vec![]);
    let mut cfg = quiet_config(120_000, 0);
    cfg.audio_monitor_on = true;
    cfg.audio_in_gain = 2_000;
    e.set_config(cfg).unwrap();
    e.push_input(0, 100);
    e.push_input(1, -50);
    let (l, r) = e.render_frame();
    // Input scaled by gain 2.0, then the make-up gain of 12.
    assert_eq!(l, 100 * 2 * 12);
    assert_eq!(r, -50 * 2 * 12);
}

#[test]
fn backing_track_wraps_its_cursor() {
    let mut e = Engine::new(vec![]);
    let mut cfg = quiet_config(120_000, 0);
    cfg.play_file = true;
    e.set_config(cfg).unwrap();
    e.set_mp3_buffer(vec![10, 20, 30]);
    e.begin_block();
    // The cursor advances once per frame, so both channels hear the same
    // sample and stay phase-locked.
    assert_eq!(e.render_frame(), (10, 10));
    assert_eq!(e.render_frame(), (20, 20));
    assert_eq!(e.render_frame(), (30, 30));
    assert_eq!(e.render_frame(), (10, 10));
    assert_eq!(e.mp3.pos, 1);
}

#[test]
fn telemetry_records_visual_mix_per_channel_sample() {
    let mut e = Engine::new(vec![]);
    let mut cfg = quiet_config(120_000, 0);
    cfg.visual_monitor_on = true;
    e.set_config(cfg).unwrap();
    e.push_input(0, -70);
    e.push_input(1, 80);
    e.render_frame();
    let t = e.get_samples();
    assert_eq!(t.len(), 2);
    // Amplitudes are recorded as magnitudes; the visual beat has no
    // compensation offset here.
    assert_eq!(t[0], (0, 70));
    assert_eq!(t[1], (0, 80));
    assert_eq!(e.get_samples(), vec![]);
}

#[test]
fn click_sounds_after_subdivision_change() {
    let mut e = Engine::new(vec![]);
    let mut cfg = quiet_config(120_000, 4_000);
    cfg.click_on = true;
    cfg.click_volume = 1000;
    e.set_config(cfg).unwrap();
    // At 120 bpm a half-beat boundary passes after 11025 frames; before
    // it, no click sounds.
    let mut pre_click: i64 = 0;
    for _ in 0..11_024 {
        let (l, r) = e.render_frame();
        pre_click += l.abs() + r.abs();
    }
    assert_eq!(pre_click, 0);
    let mut heard: i64 = 0;
    for _ in 0..250 {
        let (l, r) = e.render_frame();
        assert!(l >= 0 && l <= 65_536);
        assert!(r >= 0 && r <= 65_536);
        heard += l + r;
    }
    assert!(heard > 0);
}

#[test]
fn compensation_offsets_audible_loop_read() {
    // bpm = 661.5, 0.001 beats: an 8-cell loop. With compensation 1 the
    // audible mix reads 2 cells ahead of the write cursor, so a fed sample
    // comes back 2 channel samples (one frame) earlier than the full
    // cycle; the visual mix still uses the live position.
    let mut e = Engine::new(vec![]);
    let mut cfg = quiet_config(661_500, 1);
    cfg.looping_on = true;
    cfg.buffer_compensation = 1;
    e.set_config(cfg).unwrap();
    assert_eq!(e.loop_buffer.buffer.len(), 8);
    let mut outs: Vec<(i64, i64)> = Vec::new();
    for f in 0..6i64 {
        e.push_input(0, 100 + f);
        e.push_input(1, 200 + f);
        outs.push(e.render_frame());
    }
    // A full cycle is 4 frames; the echo arrives one frame early.
    assert_eq!(outs[0], (0, 0));
    assert_eq!(outs[1], (0, 0));
    assert_eq!(outs[2], (0, 0));
    assert_eq!(outs[3], (12 * 100, 12 * 200));
    assert_eq!(outs[4], (12 * 101, 12 * 201));
    assert_eq!(outs[5], (12 * 102, 12 * 202));
}

#[test]
fn click_toggle_with_empty_window_mutes_click() {
    // With click-toggle set and a zero loop length the window admits
    // nothing: the armed click gate stays silent.
    let mut e = Engine::new(vec![]);
    let mut cfg = quiet_config(120_000, 0);
    cfg.click_on = true;
    cfg.click_toggle = true;
    cfg.click_volume = 1000;
    e.set_config(cfg).unwrap();
    for _ in 0..11_500 {
        let (l, r) = e.render_frame();
        assert_eq!((l, r), (0, 0));
    }
}

#[test]
fn drum_voice_sounds_on_subdivision_change() {
    let cue = vec![1000i64, 2000, 3000, 4000];
    let mut e = Engine::new(cue);
    let mut cfg = quiet_config(120_000, 4_000);
    cfg.drum_on = true;
    e.set_config(cfg).unwrap();
    // The initial voice plays the cue from the start.
    let (l, r) = e.render_frame();
    assert_eq!((l, r), (1000, 2000));
    let (l, r) = e.render_frame();
    assert_eq!((l, r), (3000, 4000));
    // Exhausted: silence until the next subdivision boundary.
    let (l, r) = e.render_frame();
    assert_eq!((l, r), (0, 0));
}
