//! Small engine-state holders: the backing-track buffer, the one-shot beat
//! reset flag, the telemetry sink, and the log store with its payload.

use vstd::prelude::*;
use crate::constants::AMP_CAP;
use crate::loop_buffer::samples_bounded;

verus! {

/// The decoded backing track and its playback cursor, which wraps at the
/// end of the buffer.
pub struct Mp3Buffer {
    pub buffer: Vec<i64>,
    pub pos: usize,
}

impl Mp3Buffer {
    /// The cursor sits inside the buffer (at 0 when it is empty) and every
    /// sample is inside the converter headroom.
    pub open spec fn wf(&self) -> bool {
        &&& if self.buffer@.len() == 0 {
            self.pos == 0
        } else {
            self.pos < self.buffer@.len()
        }
        &&& samples_bounded(self.buffer@, AMP_CAP)
    }
}

/// The one-shot request to zero the beat clock, consumed exactly once by the
/// next render block.
pub struct BeatResetState {
    pub requested: bool,
}

impl BeatResetState {
    /// No reset pending.
    pub fn new() -> (s: BeatResetState)
        ensures
            !s.requested,
    {
        BeatResetState { requested: false }
    }

    /// Arms the reset; it stays armed until a render block consumes it.
    pub fn request(&mut self)
        ensures
            final(self).requested,
    {
        self.requested = true;
    }

    /// Disarms and reports whether a reset was pending.
    pub fn consume(&mut self) -> (was: bool)
        ensures
            !final(self).requested,
            was == old(self).requested,
    {
        let was = self.requested;
        self.requested = false;
        was
    }
}

/// Telemetry: one `(visual beat, amplitude)` pair per channel sample,
/// drained in whole batches by the visualization consumer.
pub struct SampleOutputBuffer {
    pub buffer: Vec<(i64, i64)>,
}

impl SampleOutputBuffer {
    /// An empty sink.
    pub fn new() -> (s: SampleOutputBuffer)
        ensures
            s.buffer@.len() == 0,
    {
        SampleOutputBuffer { buffer: Vec::new() }
    }

    /// Appends one entry.
    pub fn push(&mut self, beat: i64, amplitude: i64)
        ensures
            final(self).buffer@ == old(self).buffer@.push((beat, amplitude)),
    {
        self.buffer.push((beat, amplitude));
    }

    /// Hands out everything recorded so far and empties the sink.
    pub fn drain(&mut self) -> (out: Vec<(i64, i64)>)
        ensures
            out@ == old(self).buffer@,
            final(self).buffer@.len() == 0,
    {
        let mut out: Vec<(i64, i64)> = Vec::new();
        core::mem::swap(&mut out, &mut self.buffer);
        out
    }
}

/// Diagnostic lines gathered while the audio devices are brought up.
pub struct LogState {
    pub entries: Vec<String>,
}

/// A batch of log lines handed to the control interface.
pub struct Payload {
    pub message: Vec<String>,
}

impl LogState {
    /// An empty log.
    pub fn new() -> (s: LogState)
        ensures
            s.entries@.len() == 0,
    {
        LogState { entries: Vec::new() }
    }

    /// Appends one line.
    pub fn log(&mut self, line: String)
        ensures
            final(self).entries@ == old(self).entries@.push(line),
    {
        self.entries.push(line);
    }

    /// Hands the collected lines out as a payload, leaving the log empty.
    pub fn take_payload(&mut self) -> (p: Payload)
        ensures
            p.message@ == old(self).entries@,
            final(self).entries@.len() == 0,
    {
        let mut out: Vec<String> = Vec::new();
        core::mem::swap(&mut out, &mut self.entries);
        Payload { message: out }
    }
}

} // verus!
