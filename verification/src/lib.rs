use vstd::prelude::*;

pub mod text;
pub mod config;
pub mod bindings;
pub mod hotkey_state;
pub mod circular_buffer;
pub mod clipboard;
pub mod dictation_logger;
pub mod file_watcher;
pub mod terminal_detect;
pub mod indicator;
pub mod remote_groq;
pub mod notifications;
pub mod logging;
pub mod numbers;
pub mod timing;
pub mod transcription_timing;
pub mod paths;
pub mod conversation_history;
pub mod tools;
pub mod llm;
pub mod recording_session;
pub mod dictation;
pub mod performance_log;
pub mod portal;
pub mod text_map;
pub mod conversation_state;
pub mod ocr;
pub mod transcription_corrections;
pub mod harper;
pub mod vad;
pub mod microphones;

verus! {

} // verus!
