use transcribe_rs::config::{
    AudioConfig, DaemonConfig, DictationLoggingConfig, HotkeyConfig, IntegrationConfig, LlmConfig, ModelConfig,
    OcrConfig, TranscriptionConfig, TranscriptionCorrectionsConfig, WatchConfig, tool_config_dir,
};
use transcribe_rs::conversation_history::{ConversationHistory, HistoryEntry};
use transcribe_rs::paths::join_path;

#[test]
fn test_watch_config_output_dir_default() {
    let config = WatchConfig::default();
    assert!(config.output_dir.is_none());
}

#[test]
fn test_default_config_values() {
    let config = AudioConfig::default();
    assert!(!config.recording_pid_file.is_empty());
    assert!(!config.recording_path.is_empty());
    assert!(!config.microphone.is_empty());
    assert!(!config.log_file.is_empty());
    assert_eq!(config.sample_rate, 16000);
}

#[test]
fn test_ocr_config_default() {
    let config = OcrConfig::default();
    assert_eq!(config.language, "eng");
    assert_eq!(config.dpi, 300);
}

#[test]
fn defaults_under_a_given_directory() {
    assert_eq!(tool_config_dir(Some("/home/u/.config".to_string())), "/home/u/.config/transcribe-rs");
    assert_eq!(tool_config_dir(None), "/tmp/transcribe-rs");
    let w = WatchConfig::default_in("/cfg");
    assert_eq!(w.watch_dir, "/cfg/watch");
    assert_eq!(w.extensions, vec!["wav", "m4a", "mp3", "ogg", "flac", "webm"]);
    assert_eq!(w.debounce_ms, 1000);
    let d = DictationLoggingConfig::default_in("/cfg/");
    assert!(!d.enabled);
    assert_eq!(d.basic_log_path, "/cfg/dictation_log.csv");
    assert_eq!(TranscriptionCorrectionsConfig::default_in("/c").corrections_file, "/c/transcription_corrections.json");
    let l = LlmConfig::default_in("/c");
    assert_eq!(l.file_chat_dir, "/c/chats");
    assert_eq!(l.conversation_history_prompts, vec!["ask"]);
    assert_eq!(l.tool_sets.len(), 2);
    assert_eq!(l.prompt_tool_mapping.get("clean").map(|s| s.as_str()), Some("all"));
}

#[test]
fn other_defaults() {
    assert_eq!(ModelConfig::default().engine, "parakeet");
    assert_eq!(DaemonConfig::default().socket_path, "/tmp/transcribe-rs-v2.sock");
    let i = IntegrationConfig::default();
    assert!(i.auto_paste && i.prevent_clipboard_pollution && i.add_space_after_punctuation);
    assert_eq!(i.terminal_apps.len(), 11);
    let h = HotkeyConfig::default();
    assert_eq!(h.tap_threshold_ms, 700);
    assert_eq!(h.modifiers, vec!["super", "shift", "ctrl", "alt"]);
    assert_eq!(h.bindings[3].prompt.as_deref(), Some("ocr"));
    let t = TranscriptionConfig::default();
    assert_eq!(t.provider, "local");
    assert_eq!(t.groq_model, "whisper-large-v3-turbo");
    assert!(t.groq_language.is_empty());
}

#[test]
fn joining_paths() {
    assert_eq!(join_path("/a", "b"), "/a/b");
    assert_eq!(join_path("/a/", "b"), "/a/b");
    assert_eq!(join_path("", "b"), "b");
    assert_eq!(join_path("/a", "/b"), "/b");
}

fn entry(timestamp: u64, role: &str, content: &str, is_first: bool) -> HistoryEntry {
    HistoryEntry { timestamp, role: role.to_string(), content: content.to_string(), is_first }
}

#[test]
fn test_filter_by_time() {
    let history = ConversationHistory::new("test", 1, 10, "/tmp");

    let now = ConversationHistory::current_timestamp();
    let entries = vec![
        entry(now - 120, "user", "old message", true),
        entry(now - 30, "user", "recent message", false),
    ];

    let filtered = history.filter_by_time(entries);
    assert_eq!(filtered.len(), 1);
    assert_eq!(filtered[0].content, "recent message");
}

#[test]
fn test_limit_turns() {
    let history = ConversationHistory::new("test", 5, 2, "/tmp");

    let entries = vec![
        entry(1, "user", "msg 1", true),
        entry(2, "assistant", "response 1", false),
        entry(3, "user", "msg 2", false),
        entry(4, "assistant", "response 2", false),
        entry(5, "user", "msg 3", false),
        entry(6, "assistant", "response 3", false),
    ];

    let limited = history.limit_turns(entries);
    assert_eq!(limited.len(), 4); // 2 turns = 4 messages
    assert_eq!(limited[0].content, "msg 2");
    assert_eq!(limited[3].content, "response 3");
}

#[test]
fn test_empty_prompt_name() {
    let history = ConversationHistory::new("", 5, 10, "/tmp");
    assert!(history.history_file().contains("transcribe-rs-v2-history-default.jsonl"));
}

#[test]
fn history_file_and_messages() {
    let history = ConversationHistory::new("ask", 1, 1, "/var/h");
    assert_eq!(history.history_file(), "/var/h/transcribe-rs-v2-history-ask.jsonl");
    let entries = vec![
        entry(100, "user", "too old", true),
        entry(950, "user", "q1", false),
        entry(960, "assistant", "a1", false),
        entry(970, "user", "q2", false),
        entry(980, "assistant", "a2", false),
    ];
    let messages = history.messages_from_entries(entries, 1000);
    assert_eq!(messages.len(), 2);
    assert_eq!(messages[0].role, "user");
    assert_eq!(messages[0].content, "q2");
    assert_eq!(messages[1].content, "a2");
    let u = history.append_user("Hello", true);
    assert_eq!(u.role, "user");
    assert!(u.is_first);
    let a = history.append_assistant("Hi there!");
    assert_eq!(a.role, "assistant");
    assert!(!a.is_first);
    assert_eq!(history.filter_by_time_at(vec![entry(10, "user", "x", false)], 100).len(), 0);
    assert_eq!(history.filter_by_time_at(vec![entry(40, "user", "x", false)], 100).len(), 1);
}
