//! The desktop notifications the tool shows.
use vstd::prelude::*;

verus! {

broadcast use vstd::string::group_string_axioms;

/// A desktop notification to show: summary line, body and display time.
#[derive(Debug, Clone)]
pub struct Notice {
    pub summary: String,
    pub body: String,
    pub timeout_ms: u32,
}

/// A notification with the given text and display time.
pub fn notice(summary: &str, body: &str, timeout_ms: u32) -> (n: Notice)
    ensures
        n.summary@ == summary@,
        n.body@ == body@,
        n.timeout_ms == timeout_ms,
{
    Notice { summary: summary.to_string(), body: body.to_string(), timeout_ms }
}

/// Notification shown when recording starts.
pub fn notify_recording_started() -> (n: Notice)
    ensures
        n.summary@ == "🎤 Recording"@,
        n.body@ == "Speak now..."@,
        n.timeout_ms == 1000,
{
    notice("🎤 Recording", "Speak now...", 1000)
}

/// Notification shown when recording stops.
pub fn notify_recording_stopped() -> (n: Notice)
    ensures
        n.summary@ == "⏹️  Processing..."@,
        n.body@ == "Transcribing audio..."@,
        n.timeout_ms == 1000,
{
    notice("⏹️  Processing...", "Transcribing audio...", 1000)
}

/// Notification shown when a transcription was pasted.
pub fn notify_transcription_pasted(preview: &str) -> (n: Notice)
    ensures
        n.summary@ == "✅ Pasted"@,
        n.body@ == preview@,
        n.timeout_ms == 2000,
{
    notice("✅ Pasted", preview, 2000)
}

/// Notification shown when a transcription was only copied.
pub fn notify_transcription_copied(preview: &str) -> (n: Notice)
    ensures
        n.summary@ == "📋 Copied to clipboard"@,
        n.body@ == preview@ + "\nPress Ctrl+V to paste"@,
        n.timeout_ms == 3000,
{
    let body = crate::text::concat(preview, "\nPress Ctrl+V to paste");
    notice("📋 Copied to clipboard", body.as_str(), 3000)
}

/// Notification shown on an error.
pub fn notify_error(message: &str) -> (n: Notice)
    ensures
        n.summary@ == "❌ Error"@,
        n.body@ == message@,
        n.timeout_ms == 3000,
{
    notice("❌ Error", message, 3000)
}

} // verus!
