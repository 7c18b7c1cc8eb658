//! Derives the loop-buffer length from the active configuration.

use vstd::prelude::*;
use crate::config::{loop_len_spec, valid_config, Config};
use crate::constants::{LOOP_LEN_MAX, SAMPLE_RATE};

verus! {

/// The number of samples the overdub loop needs for the configured tempo and
/// loop length: the loop duration in samples for both channels, rounded to
/// the nearest whole sample.
pub fn get_loop_buffer_size(config: &Config) -> (n: usize)
    requires
        valid_config(config@),
    ensures
        n == loop_len_spec(config@),
        n <= LOOP_LEN_MAX,
{
    let num: u64 = config.beats_to_loop * SAMPLE_RATE * 120 + config.bpm / 2;
    let q: u64 = num / config.bpm;
    q as usize
}

} // verus!
