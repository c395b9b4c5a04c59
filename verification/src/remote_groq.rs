//! Groq Whisper models for remote speech-to-text.
use vstd::prelude::*;

verus! {

/// Available Groq Whisper models.
#[derive(Debug, Clone, Copy)]
pub enum GroqModel {
    /// Highest quality, multilingual
    WhisperLargeV3,
    /// Fast, multilingual
    WhisperLargeV3Turbo,
    /// Fastest, English only
    DistilWhisperLargeV3En,
}

/// The API name of a model.
pub open spec fn model_name(m: GroqModel) -> Seq<char> {
    match m {
        GroqModel::WhisperLargeV3 => "whisper-large-v3"@,
        GroqModel::WhisperLargeV3Turbo => "whisper-large-v3-turbo"@,
        GroqModel::DistilWhisperLargeV3En => "distil-whisper-large-v3-en"@,
    }
}

impl GroqModel {
    /// The model name the API expects.
    pub fn as_str(&self) -> (r: &'static str)
        ensures
            r@ == model_name(*self),
    {
        match self {
            GroqModel::WhisperLargeV3 => "whisper-large-v3",
            GroqModel::WhisperLargeV3Turbo => "whisper-large-v3-turbo",
            GroqModel::DistilWhisperLargeV3En => "distil-whisper-large-v3-en",
        }
    }
}

impl Default for GroqModel {
    fn default() -> (m: GroqModel)
        ensures
            m is WhisperLargeV3Turbo,
    {
        GroqModel::WhisperLargeV3Turbo
    }
}

} // verus!
