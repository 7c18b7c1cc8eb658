use practice_engine::constants::AMP_CAP;
use practice_engine::io_channels::{clamp_amp, make_buffers};
use practice_engine::loop_buffer::LoopBuffer;
use practice_engine::structs::{BeatResetState, LogState, SampleOutputBuffer};
use practice_engine::triggers::{pool_pass, SoundingSample};
use practice_engine::util::mod_add;
use std::sync::Arc;

#[test]
fn mod_add_wraps() {
    assert_eq!(mod_add(3, 4, 10), 7);
    assert_eq!(mod_add(9, 1, 10), 0);
    assert_eq!(mod_add(9, 25, 10), 4);
}

#[test]
fn loop_buffer_round_trip_after_full_cycle() {
    // A sample written at the cursor is read back at the same cell after
    // exactly one full cycle of advances.
    let mut lb = LoopBuffer::new(8);
    assert_eq!(lb.pos, 0);
    lb.write(lb.pos, 42);
    for _ in 0..8 {
        lb.advance();
    }
    assert_eq!(lb.pos, 0);
    assert_eq!(lb.read(0), 42);
}

#[test]
fn loop_buffer_resize_truncates_or_zero_extends_and_resets() {
    let mut lb = LoopBuffer::new(4);
    lb.write(0, 1);
    lb.write(1, 2);
    lb.write(2, 3);
    lb.write(3, 4);
    lb.advance();
    assert_eq!(lb.pos, 1);
    lb.resize_to(2);
    assert_eq!(lb.pos, 0);
    assert_eq!(lb.buffer, vec![1, 2]);
    lb.resize_to(5);
    assert_eq!(lb.pos, 0);
    assert_eq!(lb.buffer, vec![1, 2, 0, 0, 0]);
}

#[test]
fn transport_underrun_fallback() {
    let mut b = make_buffers();
    // Empty queues: silence on the left, the left value on the right.
    assert_eq!(b.pop_frame(), (0, 0));
    // Only the left channel has data: the right substitutes it.
    b.push(0, 7);
    assert_eq!(b.pop_frame(), (7, 7));
    // Both channels queued: each pops its own.
    b.push(0, 1);
    b.push(1, 2);
    assert_eq!(b.pop_frame(), (1, 2));
    // Only the right channel has data: the left substitutes silence.
    b.push(1, 9);
    assert_eq!(b.pop_frame(), (0, 9));
}

#[test]
fn transport_clamps_into_headroom() {
    let mut b = make_buffers();
    b.push(0, i64::MAX);
    b.push(1, i64::MIN);
    assert_eq!(b.pop_frame(), (AMP_CAP, -AMP_CAP));
    assert_eq!(clamp_amp(5), 5);
    assert_eq!(clamp_amp(AMP_CAP + 1), AMP_CAP);
}

#[test]
fn voice_lives_exactly_buffer_length_passes() {
    // A voice over a buffer of length 3, among other voices: present for
    // exactly 3 render samples, then absent.
    let short = Arc::new(vec![5i64, 6, 7]);
    let long = Arc::new(vec![1i64; 10]);
    let mut voices = vec![
        SoundingSample { sample: long.clone(), pos: 0 },
        SoundingSample { sample: short.clone(), pos: 0 },
    ];
    for k in 1..=3u64 {
        let mix = pool_pass(&mut voices, true);
        assert_eq!(voices.len(), 2, "pass {k}");
        assert_eq!(voices[1].pos as u64, k);
        assert_eq!(mix, 1 + [5i64, 6, 7][(k - 1) as usize] as i128);
    }
    // Fourth pass: the short voice is exhausted and leaves the pool.
    let mix = pool_pass(&mut voices, true);
    assert_eq!(voices.len(), 1);
    assert_eq!(mix, 1);
    assert_eq!(voices[0].pos, 4);
}

#[test]
fn pool_pass_mix_gated_by_drum_flag() {
    let buf = Arc::new(vec![9i64, 9]);
    let mut voices = vec![SoundingSample { sample: buf, pos: 0 }];
    let mix = pool_pass(&mut voices, false);
    assert_eq!(mix, 0);
    // The voice still advances while muted.
    assert_eq!(voices[0].pos, 1);
}

#[test]
fn telemetry_drains_in_whole_batches() {
    let mut sink = SampleOutputBuffer::new();
    sink.push(10, 20);
    sink.push(30, 40);
    assert_eq!(sink.drain(), vec![(10, 20), (30, 40)]);
    assert_eq!(sink.drain(), vec![]);
}

#[test]
fn beat_reset_flag_is_one_shot() {
    let mut flag = BeatResetState::new();
    assert!(!flag.consume());
    flag.request();
    flag.request();
    assert!(flag.consume());
    assert!(!flag.consume());
}

#[test]
fn log_state_hands_out_payload() {
    let mut log = LogState::new();
    log.log("left format".to_string());
    log.log("right format".to_string());
    let p = log.take_payload();
    assert_eq!(p.message, vec!["left format".to_string(), "right format".to_string()]);
    assert_eq!(log.entries.len(), 0);
}
