use practice_engine::beat_bisect::{beat_bisect, bisect, classify_accent, subdivision_index};
use practice_engine::config::{Note, ParserRhythm};
use practice_engine::constants::TICKS_PER_BEAT;

const HALF_BEAT: u64 = TICKS_PER_BEAT / 2;

fn eighth_pattern() -> ParserRhythm {
    ParserRhythm {
        notes: vec![Note { time: 0 }, Note { time: HALF_BEAT }],
        start: 0,
        end: TICKS_PER_BEAT,
    }
}

#[test]
fn bisect_finds_greatest_lower_entry() {
    let arr: Vec<u64> = vec![10, 20, 30];
    assert_eq!(bisect(&arr, 5), -1);
    assert_eq!(bisect(&arr, 10), 0);
    assert_eq!(bisect(&arr, 19), 0);
    assert_eq!(bisect(&arr, 20), 1);
    assert_eq!(bisect(&arr, 29), 1);
    assert_eq!(bisect(&arr, 30), 2);
    assert_eq!(bisect(&arr, 1000), 2);
}

#[test]
fn bisect_on_empty_is_minus_one() {
    let arr: Vec<u64> = vec![];
    assert_eq!(bisect(&arr, 7), -1);
}

#[test]
fn beat_bisect_eighth_sweep() {
    // Two onsets at 0 and 0.5 of a one-beat cycle: the index increments at
    // every half beat, transitions exactly at 0.0, 0.5, 1.0, 1.5, 2.0, 2.5.
    let subs: Vec<u64> = vec![0, HALF_BEAT, TICKS_PER_BEAT];
    let expected_transitions: [u64; 6] = [
        0,
        HALF_BEAT,
        TICKS_PER_BEAT,
        TICKS_PER_BEAT + HALF_BEAT,
        2 * TICKS_PER_BEAT,
        2 * TICKS_PER_BEAT + HALF_BEAT,
    ];
    for (i, t) in expected_transitions.iter().enumerate() {
        assert_eq!(beat_bisect(&subs, *t), i as i64);
        if *t > 0 {
            assert_eq!(beat_bisect(&subs, *t - 1), i as i64 - 1);
        }
        assert_eq!(beat_bisect(&subs, *t + HALF_BEAT - 1), i as i64);
    }
    // Sampled sweep up to 3.0 beats: two equal indices per beat.
    let step = HALF_BEAT / 2;
    let mut last = -1i64;
    let mut b: u64 = 0;
    while b < 3 * TICKS_PER_BEAT {
        let idx = beat_bisect(&subs, b);
        assert!(idx >= last);
        assert_eq!(idx, (b / HALF_BEAT) as i64);
        last = idx;
        b += step;
    }
}

#[test]
fn beat_bisect_short_list_defaults_to_whole_beats() {
    // Fewer than two boundaries fall back to the uniform one-beat cycle.
    let empty: Vec<u64> = vec![];
    let single: Vec<u64> = vec![TICKS_PER_BEAT];
    let uniform: Vec<u64> = vec![0, TICKS_PER_BEAT];
    for b in [
        0u64,
        1,
        HALF_BEAT,
        TICKS_PER_BEAT - 1,
        TICKS_PER_BEAT,
        5 * TICKS_PER_BEAT + 123,
    ] {
        let expect = (b / TICKS_PER_BEAT) as i64;
        assert_eq!(beat_bisect(&empty, b), expect);
        assert_eq!(beat_bisect(&single, b), expect);
        assert_eq!(beat_bisect(&uniform, b), expect);
    }
}

#[test]
fn pattern_degeneracy_zero_or_one_onset() {
    // A pattern with 0 or 1 onsets behaves as {onsets=[0], end=1.0}:
    // the index increments once per whole beat.
    let none = ParserRhythm { notes: vec![], start: 0, end: TICKS_PER_BEAT };
    let one = ParserRhythm {
        notes: vec![Note { time: HALF_BEAT }],
        start: 0,
        end: TICKS_PER_BEAT,
    };
    let reference = ParserRhythm {
        notes: vec![Note { time: 0 }],
        start: 0,
        end: TICKS_PER_BEAT,
    };
    for b in [0u64, 1, HALF_BEAT, TICKS_PER_BEAT - 1, TICKS_PER_BEAT, 7 * TICKS_PER_BEAT + 5] {
        let expect = (b / TICKS_PER_BEAT) as i64;
        assert_eq!(subdivision_index(&none, b), expect);
        assert_eq!(subdivision_index(&one, b), expect);
        assert_eq!(subdivision_index(&reference, b), expect);
    }
}

#[test]
fn subdivision_index_eighth_pattern() {
    let r = eighth_pattern();
    assert_eq!(subdivision_index(&r, 0), 0);
    assert_eq!(subdivision_index(&r, HALF_BEAT - 1), 0);
    assert_eq!(subdivision_index(&r, HALF_BEAT), 1);
    assert_eq!(subdivision_index(&r, TICKS_PER_BEAT), 2);
    assert_eq!(subdivision_index(&r, 3 * TICKS_PER_BEAT - 1), 5);
}

#[test]
fn accents_start_each_cycle() {
    let r = eighth_pattern();
    assert!(classify_accent(&r, 0));
    assert!(!classify_accent(&r, 1));
    assert!(classify_accent(&r, 2));
    assert!(!classify_accent(&r, 3));
    assert!(!classify_accent(&r, -1));
    let degenerate = ParserRhythm { notes: vec![], start: 0, end: TICKS_PER_BEAT };
    assert!(classify_accent(&degenerate, 0));
    assert!(classify_accent(&degenerate, 5));
}

#[test]
fn late_first_onset_gives_minus_one_before_it() {
    // Before the first onset of the first cycle the index is -1.
    let r = ParserRhythm {
        notes: vec![Note { time: HALF_BEAT }, Note { time: HALF_BEAT + 1000 }],
        start: 0,
        end: TICKS_PER_BEAT,
    };
    assert_eq!(subdivision_index(&r, 0), -1);
    assert_eq!(subdivision_index(&r, HALF_BEAT), 0);
}
