//! Milestone timestamps and per-stage durations of the dictation workflow.
use vstd::prelude::*;

verus! {

/// Current wall-clock time in nanoseconds since the UNIX epoch (std `SystemTime::now`), or 0
/// when the clock reads earlier than the epoch.
#[verifier::external_body]
fn get_current_timestamp_ns() -> u128 {
    std::time::SystemTime::now().duration_since(std::time::UNIX_EPOCH).map(|d| d.as_nanos()).unwrap_or(0)
}

/// The start time saved as text (nanoseconds since the UNIX epoch): the number the text holds
/// once surrounding white space is removed, as std's `u128::from_str` reads it; `None` when it
/// holds none.
pub fn parse_start_time(text: &str) -> (r: Option<u128>)
    ensures
        r == crate::numbers::parse_u128_spec(crate::text::trimmed(text@)),
{
    let t = crate::text::trim(text);
    crate::numbers::parse_u128(t.as_str())
}

/// Structure to track milestone timestamps throughout the workflow.
#[derive(Debug, Clone)]
pub struct PerformanceMetrics {
    pub start_ns: u128,
    pub recording_stop_ns: Option<u128>,
    pub transcription_done_ns: Option<u128>,
    pub processing_done_ns: Option<u128>,
    pub clipboard_done_ns: Option<u128>,
    pub paste_done_ns: Option<u128>,
}

impl PerformanceMetrics {
    /// Create new metrics from the saved start time (nanoseconds since the UNIX epoch).
    pub fn from_start_time(start_ns: u128) -> (m: PerformanceMetrics)
        ensures
            m.start_ns == start_ns,
            m.recording_stop_ns is None,
            m.transcription_done_ns is None,
            m.processing_done_ns is None,
            m.clipboard_done_ns is None,
            m.paste_done_ns is None,
    {
        PerformanceMetrics {
            start_ns,
            recording_stop_ns: None,
            transcription_done_ns: None,
            processing_done_ns: None,
            clipboard_done_ns: None,
            paste_done_ns: None,
        }
    }

    /// Mark that recording stopped at `now` (nanoseconds since the UNIX epoch).
    pub fn mark_recording_stop_at(&mut self, now: u128)
        ensures
            *final(self) == (PerformanceMetrics { recording_stop_ns: Some(now), ..*old(self) }),
    {
        self.recording_stop_ns = Some(now);
    }

    /// Mark that recording stopped, now (the wall clock, see [`Self::mark_recording_stop_at`]).
    pub fn mark_recording_stop(&mut self)
        ensures
            final(self).recording_stop_ns is Some,
            *final(self) == (PerformanceMetrics { recording_stop_ns: final(self).recording_stop_ns, ..*old(self) }),
    {
        self.mark_recording_stop_at(get_current_timestamp_ns());
    }

    /// Mark that transcription completed at `now` (nanoseconds since the UNIX epoch).
    pub fn mark_transcription_done_at(&mut self, now: u128)
        ensures
            *final(self) == (PerformanceMetrics { transcription_done_ns: Some(now), ..*old(self) }),
    {
        self.transcription_done_ns = Some(now);
    }

    /// Mark that transcription completed, now (the wall clock, see [`Self::mark_transcription_done_at`]).
    pub fn mark_transcription_done(&mut self)
        ensures
            final(self).transcription_done_ns is Some,
            *final(self) == (PerformanceMetrics { transcription_done_ns: final(self).transcription_done_ns, ..*old(self) }),
    {
        self.mark_transcription_done_at(get_current_timestamp_ns());
    }

    /// Mark that text processing completed at `now` (nanoseconds since the UNIX epoch).
    pub fn mark_processing_done_at(&mut self, now: u128)
        ensures
            *final(self) == (PerformanceMetrics { processing_done_ns: Some(now), ..*old(self) }),
    {
        self.processing_done_ns = Some(now);
    }

    /// Mark that text processing completed, now (the wall clock, see [`Self::mark_processing_done_at`]).
    pub fn mark_processing_done(&mut self)
        ensures
            final(self).processing_done_ns is Some,
            *final(self) == (PerformanceMetrics { processing_done_ns: final(self).processing_done_ns, ..*old(self) }),
    {
        self.mark_processing_done_at(get_current_timestamp_ns());
    }

    /// Mark that clipboard copy completed at `now` (nanoseconds since the UNIX epoch).
    pub fn mark_clipboard_done_at(&mut self, now: u128)
        ensures
            *final(self) == (PerformanceMetrics { clipboard_done_ns: Some(now), ..*old(self) }),
    {
        self.clipboard_done_ns = Some(now);
    }

    /// Mark that clipboard copy completed, now (the wall clock, see [`Self::mark_clipboard_done_at`]).
    pub fn mark_clipboard_done(&mut self)
        ensures
            final(self).clipboard_done_ns is Some,
            *final(self) == (PerformanceMetrics { clipboard_done_ns: final(self).clipboard_done_ns, ..*old(self) }),
    {
        self.mark_clipboard_done_at(get_current_timestamp_ns());
    }

    /// Mark that paste completed at `now` (nanoseconds since the UNIX epoch).
    pub fn mark_paste_done_at(&mut self, now: u128)
        ensures
            *final(self) == (PerformanceMetrics { paste_done_ns: Some(now), ..*old(self) }),
    {
        self.paste_done_ns = Some(now);
    }

    /// Mark that paste completed, now (the wall clock, see [`Self::mark_paste_done_at`]).
    pub fn mark_paste_done(&mut self)
        ensures
            final(self).paste_done_ns is Some,
            *final(self) == (PerformanceMetrics { paste_done_ns: final(self).paste_done_ns, ..*old(self) }),
    {
        self.mark_paste_done_at(get_current_timestamp_ns());
    }
}

/// Breakdown of timing for each stage of the dictation workflow.
#[derive(Debug, Clone)]
pub struct TimingBreakdown {
    /// How long the audio recording was (ms)
    pub recording_ms: u64,
    /// Time to transcribe via daemon (ms)
    pub transcription_ms: u64,
    /// Time for corrections + LLM processing (ms)
    pub processing_ms: u64,
    /// Time for clipboard + paste (ms)
    pub paste_ms: u64,
}

impl TimingBreakdown {
    /// Create a new timing breakdown.
    pub fn new(recording_ms: u64, transcription_ms: u64, processing_ms: u64, paste_ms: u64) -> (t: TimingBreakdown)
        ensures
            t.recording_ms == recording_ms,
            t.transcription_ms == transcription_ms,
            t.processing_ms == processing_ms,
            t.paste_ms == paste_ms,
    {
        TimingBreakdown { recording_ms, transcription_ms, processing_ms, paste_ms }
    }

    /// Total end-to-end time (excludes recording since that's user-controlled).
    pub fn processing_total_ms(&self) -> (n: u64)
        requires
            self.transcription_ms + self.processing_ms + self.paste_ms <= u64::MAX,
        ensures
            n == self.transcription_ms + self.processing_ms + self.paste_ms,
    {
        self.transcription_ms + self.processing_ms + self.paste_ms
    }

    /// Total time including recording.
    pub fn total_ms(&self) -> (n: u64)
        requires
            self.recording_ms + self.transcription_ms + self.processing_ms + self.paste_ms <= u64::MAX,
        ensures
            n == self.recording_ms + self.transcription_ms + self.processing_ms + self.paste_ms,
    {
        self.recording_ms + self.processing_total_ms()
    }
}

} // verus!
