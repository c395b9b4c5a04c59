//! The recording daemon's session logic: marking where a recording starts in the continuously
//! filled sample buffer and extracting it when the recording stops.
use vstd::prelude::*;
use crate::circular_buffer::{CircularBuffer, extracted_span};

verus! {

broadcast use vstd::string::group_string_axioms;

/// Commands accepted on the daemon's socket.
#[derive(Debug, Clone, Copy)]
pub enum DaemonCommand {
    Start,
    Stop,
    Ping,
}

/// The command named in a request; an unknown name is an error naming it.
pub fn parse_command(command: &str) -> (r: Result<DaemonCommand, String>)
    ensures
        match r {
            Ok(DaemonCommand::Start) => command@ == "start"@,
            Ok(DaemonCommand::Stop) => command@ == "stop"@,
            Ok(DaemonCommand::Ping) => command@ == "ping"@,
            Err(e) => command@ != "start"@ && command@ != "stop"@ && command@ != "ping"@
                && e@ == "Unknown command: "@ + command@,
        },
{
    if crate::text::str_eq(command, "start") {
        Ok(DaemonCommand::Start)
    } else if crate::text::str_eq(command, "stop") {
        Ok(DaemonCommand::Stop)
    } else if crate::text::str_eq(command, "ping") {
        Ok(DaemonCommand::Ping)
    } else {
        Err(crate::text::concat("Unknown command: ", command))
    }
}

/// Whether a recording is in progress, and where in the buffer it started.
pub struct RecordingSession {
    recording_start_index: Option<usize>,
}

impl RecordingSession {
    /// Where the current recording started, if one is in progress.
    pub closed spec fn started_at(&self) -> Option<usize> {
        self.recording_start_index
    }

    /// No recording in progress.
    pub fn new() -> (s: RecordingSession)
        ensures
            s.started_at() is None,
    {
        RecordingSession { recording_start_index: None }
    }

    /// Whether a recording is in progress.
    pub fn is_recording(&self) -> (r: bool)
        ensures
            r == self.started_at() is Some,
    {
        self.recording_start_index.is_some()
    }

    /// Start recording at the buffer's current position; an error if a recording is already in
    /// progress (which is left as it is).
    pub fn start(&mut self, buffer: &CircularBuffer) -> (r: Result<usize, String>)
        requires
            buffer.wf(),
        ensures
            old(self).started_at() is Some ==> (r matches Err(e) && e@ == "Already recording"@
                && final(self).started_at() == old(self).started_at()),
            old(self).started_at() is None ==> r == Ok::<usize, String>(buffer.written().len() as usize)
                && final(self).started_at() == Some(buffer.written().len() as usize),
    {
        if self.recording_start_index.is_some() {
            return Err("Already recording".to_string());
        }
        let start_index = buffer.get_current_index();
        self.recording_start_index = Some(start_index);
        Ok(start_index)
    }

    /// Stop the recording that started at `start_index` and return its samples.
    ///
    /// Fails, leaving the session as it is, when no recording started at that index. Otherwise
    /// the session ends; it fails when nothing was recorded since, or when everything recorded
    /// has been overwritten; and else returns what the buffer still holds of the recording.
    pub fn stop(&mut self, start_index: usize, buffer: &CircularBuffer) -> (r: Result<Vec<i16>, String>)
        requires
            buffer.wf(),
        ensures
            old(self).started_at() != Some(start_index) ==> (r matches Err(e) && e@ == "Not recording or index mismatch"@
                && final(self).started_at() == old(self).started_at()),
            old(self).started_at() == Some(start_index) ==> {
                let total = buffer.written().len() as int;
                let count = if total >= start_index { total - start_index } else { 0 };
                let span = extracted_span(total, buffer.cap() as int, start_index as int, count);
                &&& final(self).started_at() is None
                &&& count == 0 ==> (r matches Err(e) && e@ == "No audio recorded"@)
                &&& count > 0 && span.1 == 0 ==> (r matches Err(e) && e@ == "Audio data lost (buffer overwritten)"@)
                &&& count > 0 && span.1 > 0 ==> (r matches Ok(samples) && samples@ == buffer.written().subrange(span.0, span.0 + span.1))
            },
    {
        match self.recording_start_index {
            Some(s) => {
                if s != start_index {
                    return Err("Not recording or index mismatch".to_string());
                }
            },
            None => {
                return Err("Not recording or index mismatch".to_string());
            },
        }
        let end_index = buffer.get_current_index();
        let sample_count = end_index.saturating_sub(start_index);
        self.recording_start_index = None;
        if sample_count == 0 {
            return Err("No audio recorded".to_string());
        }
        let samples = buffer.extract_range(start_index, sample_count);
        if samples.len() == 0 {
            return Err("Audio data lost (buffer overwritten)".to_string());
        }
        Ok(samples)
    }
}

/// A recording returns exactly the audio written while it ran, as long as that audio still fits
/// in the buffer: starting after `before` samples and stopping after `samples` more gives back
/// `samples`.
pub proof fn law_recording_returns_written_audio(before: Seq<i16>, samples: Seq<i16>, capacity: nat)
    requires
        0 < samples.len() <= capacity,
    ensures
        ({
            let after = before + samples;
            let total = after.len() as int;
            let start = before.len() as int;
            let span = extracted_span(total, capacity as int, start, total - start);
            &&& span.1 > 0
            &&& after.subrange(span.0, span.0 + span.1) == samples
        }),
{
    crate::circular_buffer::law_read_back_write(before, samples, capacity);
}

/// The sample encoded by two bytes of 16-bit little-endian PCM.
pub open spec fn le_sample(lo: u8, hi: u8) -> int {
    let v = lo + 256 * hi;
    if v >= 32768 { v - 65536 } else { v }
}

/// Decode 16-bit little-endian PCM: one sample per pair of bytes, a trailing odd byte ignored.
pub fn decode_samples(bytes: &[u8]) -> (r: Vec<i16>)
    ensures
        r@.len() == bytes@.len() / 2,
        forall|k: int| 0 <= k < r@.len() ==> #[trigger] r@[k] as int == le_sample(bytes@[2 * k], bytes@[2 * k + 1]),
{
    let mut r: Vec<i16> = Vec::new();
    let mut i: usize = 0;
    while i + 1 < bytes.len()
        invariant
            i % 2 == 0,
            i <= bytes@.len(),
            r@.len() == i / 2,
            forall|k: int| 0 <= k < r@.len() ==> #[trigger] r@[k] as int == le_sample(bytes@[2 * k], bytes@[2 * k + 1]),
        decreases bytes.len() - i,
    {
        let lo = bytes[i] as i32;
        let hi = bytes[i + 1] as i32;
        let v = lo + 256 * hi;
        let sample: i32 = if v >= 32768 { v - 65536 } else { v };
        r.push(sample as i16);
        i += 2;
    }
    r
}

/// The `ffmpeg` arguments that capture a PulseAudio source as 16 kHz mono 16-bit little-endian
/// PCM on standard output.
pub open spec fn capture_arguments(source: Seq<char>) -> Seq<Seq<char>> {
    seq!["-f"@, "pulse"@, "-i"@, source, "-ar"@, "16000"@, "-ac"@, "1"@, "-f"@, "s16le"@, "pipe:1"@]
}

/// The `ffmpeg` capture arguments for a source (see [`capture_arguments`]).
pub fn capture_args(source: &str) -> (r: Vec<String>)
    ensures
        r@.map_values(|a: String| a@) == capture_arguments(source@),
{
    let mut r: Vec<String> = Vec::new();
    r.push("-f".to_string());
    r.push("pulse".to_string());
    r.push("-i".to_string());
    r.push(source.to_string());
    r.push("-ar".to_string());
    r.push("16000".to_string());
    r.push("-ac".to_string());
    r.push("1".to_string());
    r.push("-f".to_string());
    r.push("s16le".to_string());
    r.push("pipe:1".to_string());
    assert(r@.map_values(|a: String| a@) =~= capture_arguments(source@));
    r
}

/// Samples per second captured.
pub const SAMPLE_RATE: u32 = 16000;

/// The buffer capacity, in samples, for a number of seconds of audio.
pub fn buffer_capacity(seconds: usize) -> (r: usize)
    requires
        SAMPLE_RATE * seconds <= usize::MAX,
    ensures
        r == SAMPLE_RATE * seconds,
{
    16000 * seconds
}

} // verus!
