use transcribe_rs::circular_buffer::CircularBuffer;
use transcribe_rs::config::LlmConfig;
use transcribe_rs::conversation_history::HistoryMessage;
use transcribe_rs::dictation::{
    choose_delivery, dictation_log_choice, gui_prompt_name, requested_prompt, text_processing,
    transcription_failure_notice, Delivery, DictationLog, TextProcessing,
};
use transcribe_rs::llm::{
    build_messages_with_history, build_messages_without_history, first_user_message, follow_up_message,
    history_user_message, is_clear_history_command, is_history_enabled_for_prompt, normalize_command,
    tools_for_prompt, ChatMessage, LoopStep, ModelReply, ToolCallRequest, ToolLoop, MAX_TOOL_ITERATIONS,
};
use transcribe_rs::performance_log::{breakdown_suffix, get_build_version};
use transcribe_rs::recording_session::{
    buffer_capacity, capture_args, decode_samples, parse_command, DaemonCommand, RecordingSession,
};
use transcribe_rs::text_map::TextMap;
use transcribe_rs::text::join_strings;
use transcribe_rs::transcription_timing::{
    estimate_vad_time, ApiTimer, TranscriptionTimer,
};

const SYSTEM: &str = "You are Kimi, an AI assistant created by Moonshot AI.";

fn plain(role: &str, content: &str) -> ChatMessage {
    ChatMessage {
        role: role.to_string(),
        content: Some(content.to_string()),
        tool_calls: None,
        tool_call_id: None,
        name: None,
    }
}

fn reply(finish: Option<&str>, content: Option<&str>, calls: Option<Vec<ToolCallRequest>>) -> ModelReply {
    ModelReply {
        message: ChatMessage {
            role: "assistant".to_string(),
            content: content.map(|c| c.to_string()),
            tool_calls: calls,
            tool_call_id: None,
            name: None,
        },
        finish_reason: finish.map(|f| f.to_string()),
    }
}

fn call(id: &str, name: &str) -> ToolCallRequest {
    ToolCallRequest { id: id.to_string(), name: name.to_string(), arguments: "{}".to_string() }
}

#[test]
fn test_build_version() {
    let version = get_build_version("0.1.4", 1);
    assert!(version.contains("+"));
    assert_eq!(version, "0.1.4+1");
    assert_eq!(get_build_version("2.0.0", 1234), "2.0.0+1234");
}

#[test]
fn performance_breakdown_suffix() {
    assert_eq!(breakdown_suffix(&[]), "");
    let details = vec!["record:1.000s".to_string(), "paste:0.200s".to_string()];
    assert_eq!(breakdown_suffix(&details), " | Breakdown: record:1.000s, paste:0.200s");
    assert_eq!(breakdown_suffix(&details[..1]), " | Breakdown: record:1.000s");
}

#[test]
fn join_strings_separates_parts() {
    let parts = vec!["a".to_string(), "bc".to_string(), "".to_string(), "d".to_string()];
    assert_eq!(join_strings(&parts, ", "), "a, bc, , d");
    assert_eq!(join_strings(&[], "-"), "");
}

#[test]
fn vad_estimate_per_second_of_audio() {
    assert_eq!(estimate_vad_time(5000), 400);
    assert_eq!(estimate_vad_time(10000), 800);
    assert_eq!(estimate_vad_time(1000), 200);
    assert_eq!(estimate_vad_time(0), 200);
    assert_eq!(estimate_vad_time(2_512), 200);
    assert_eq!(estimate_vad_time(3_012), 240);
    assert_eq!(estimate_vad_time(100_000), 3000);
    assert_eq!(estimate_vad_time(u64::MAX), 3000);
}

#[test]
fn timers_record_history_lines() {
    let timer = TranscriptionTimer::new(1500);
    assert!(timer.stop_and_log(vec!["1,2".to_string()]).is_none());
    let mut timer = timer;
    timer.start();
    let (elapsed, lines) = timer.stop_and_log(vec!["1,2".to_string()]).unwrap();
    assert_eq!(lines.len(), 2);
    assert_eq!(lines[0], "1,2");
    assert_eq!(lines[1], format!("1500,{}", elapsed));

    let mut api = ApiTimer::new(42);
    assert!(api.stop_and_log(Vec::new()).is_none());
    api.start();
    let full: Vec<String> = (0..100).map(|i| format!("{},{}", i, i)).collect();
    let (elapsed, lines) = api.stop_and_log(full).unwrap();
    assert_eq!(lines.len(), 100);
    assert_eq!(lines[0], "1,1");
    assert_eq!(lines[99], format!("42,{}", elapsed));
}

#[test]
fn first_message_with_and_without_screen_context() {
    assert_eq!(first_user_message("Fix this", "hello", None), "Fix this\n\nOriginal dictation:\nhello");
    assert_eq!(
        first_user_message("Fix this", "hello", Some("screen")),
        "Fix this\n\nScreen context (OCR of active window):\nscreen\n\nUser dictation:\nhello"
    );
    assert_eq!(follow_up_message("hello", None), "hello");
    assert_eq!(
        follow_up_message("hello", Some("screen")),
        "Screen context (OCR of active window):\nscreen\n\nUser dictation:\nhello"
    );
    assert_eq!(history_user_message("P", "t", true), "P\n\nOriginal dictation:\nt");
    assert_eq!(history_user_message("P", "t", false), "t");
}

#[test]
fn messages_without_history() {
    let m = build_messages_without_history("Fix", "text", None);
    assert_eq!(m.len(), 2);
    assert_eq!(m[0].role, "system");
    assert_eq!(m[0].content.as_deref(), Some(SYSTEM));
    assert_eq!(m[1].role, "user");
    assert_eq!(m[1].content.as_deref(), Some("Fix\n\nOriginal dictation:\ntext"));
}

#[test]
fn messages_with_history() {
    let empty = build_messages_with_history("Fix", "text", &[], None);
    assert_eq!(empty.len(), 2);
    assert_eq!(empty[1].content.as_deref(), Some("Fix\n\nOriginal dictation:\ntext"));

    let history = vec![
        HistoryMessage { role: "user".to_string(), content: "Fix\n\nOriginal dictation:\nfirst".to_string() },
        HistoryMessage { role: "assistant".to_string(), content: "First.".to_string() },
    ];
    let m = build_messages_with_history("Fix", "second", &history, None);
    assert_eq!(m.len(), 4);
    assert_eq!(m[0].content.as_deref(), Some(SYSTEM));
    assert_eq!(m[1].role, "user");
    assert_eq!(m[2].role, "assistant");
    assert_eq!(m[2].content.as_deref(), Some("First."));
    assert_eq!(m[3].role, "user");
    assert_eq!(m[3].content.as_deref(), Some("second"));
}

#[test]
fn history_enabled_only_for_listed_prompts() {
    let mut config = LlmConfig::default_in("/cfg");
    assert!(is_history_enabled_for_prompt(&config, "ask"));
    assert!(!is_history_enabled_for_prompt(&config, "clean"));
    config.conversation_history_enabled = false;
    assert!(!is_history_enabled_for_prompt(&config, "ask"));
}

#[test]
fn clear_history_command_ignores_case_and_punctuation() {
    let config = LlmConfig::default_in("/cfg");
    assert!(is_clear_history_command("clear", &config));
    assert!(is_clear_history_command("Clear.", &config));
    assert!(is_clear_history_command("  CLEAR!! ", &config));
    assert!(!is_clear_history_command("clear all", &config));
    assert!(!is_clear_history_command("clean", &config));
    let chars: String = normalize_command("Hello,   World!").into_iter().collect();
    assert_eq!(chars, "hello world");
}

#[test]
fn tool_loop_runs_tools_then_finishes() {
    let mut l = ToolLoop::new(vec![plain("system", SYSTEM), plain("user", "hi")]);
    assert!(l.can_send());
    let step = l.on_reply(reply(Some("tool_calls"), None, Some(vec![call("c1", "weather")])));
    let calls = match step {
        LoopStep::CallTools { calls } => calls,
        other => panic!("unexpected step {:?}", other),
    };
    assert_eq!(calls.len(), 1);
    assert_eq!(calls[0].name, "weather");
    assert_eq!(l.messages().len(), 3);
    l.add_tool_result(&calls[0], "sunny".to_string());
    assert_eq!(l.messages().len(), 4);
    let last = &l.messages()[3];
    assert_eq!(last.role, "tool");
    assert_eq!(last.content.as_deref(), Some("sunny"));
    assert_eq!(last.tool_call_id.as_deref(), Some("c1"));
    assert_eq!(last.name.as_deref(), Some("weather"));
    match l.on_reply(reply(Some("stop"), Some("It is sunny."), None)) {
        LoopStep::Done(result) => {
            assert_eq!(result.text, "It is sunny.");
            assert!(result.tool_called);
        }
        other => panic!("unexpected step {:?}", other),
    }
}

#[test]
fn tool_loop_plain_answer_and_unexpected_reply() {
    let mut l = ToolLoop::new(vec![plain("user", "hi")]);
    match l.on_reply(reply(Some("stop"), Some("Hello"), None)) {
        LoopStep::Done(result) => {
            assert_eq!(result.text, "Hello");
            assert!(!result.tool_called);
        }
        other => panic!("unexpected step {:?}", other),
    }
    assert_eq!(l.messages().len(), 1);
    match l.on_reply(reply(Some("length"), None, None)) {
        LoopStep::Unexpected { iteration, finish_reason } => {
            assert_eq!(iteration, 0);
            assert_eq!(finish_reason.as_deref(), Some("length"));
        }
        other => panic!("unexpected step {:?}", other),
    }
}

#[test]
fn tool_loop_stops_after_the_allowed_rounds() {
    let mut l = ToolLoop::new(vec![plain("user", "hi")]);
    let mut rounds = 0;
    while l.can_send() {
        match l.on_reply(reply(Some("tool_calls"), None, None)) {
            LoopStep::CallTools { calls } => assert!(calls.is_empty()),
            other => panic!("unexpected step {:?}", other),
        }
        rounds += 1;
    }
    assert_eq!(rounds, MAX_TOOL_ITERATIONS);
    assert_eq!(l.messages().len(), 1 + MAX_TOOL_ITERATIONS);
}

#[test]
fn daemon_commands() {
    assert!(matches!(parse_command("start"), Ok(DaemonCommand::Start)));
    assert!(matches!(parse_command("stop"), Ok(DaemonCommand::Stop)));
    assert!(matches!(parse_command("ping"), Ok(DaemonCommand::Ping)));
    assert_eq!(parse_command("Start").err(), Some("Unknown command: Start".to_string()));
    assert_eq!(parse_command("").err(), Some("Unknown command: ".to_string()));
}

#[test]
fn recording_session_returns_recorded_audio() {
    let mut buffer = CircularBuffer::new(10);
    buffer.write_samples(&[9, 9, 9]);
    let mut session = RecordingSession::new();
    assert!(!session.is_recording());
    let start = session.start(&buffer).unwrap();
    assert_eq!(start, 3);
    assert!(session.is_recording());
    assert_eq!(session.start(&buffer).err(), Some("Already recording".to_string()));
    buffer.write_samples(&[1, 2, 3, 4]);
    assert_eq!(session.stop(start + 1, &buffer).err(), Some("Not recording or index mismatch".to_string()));
    assert!(session.is_recording());
    assert_eq!(session.stop(start, &buffer).unwrap(), vec![1, 2, 3, 4]);
    assert!(!session.is_recording());
    assert_eq!(session.stop(start, &buffer).err(), Some("Not recording or index mismatch".to_string()));
}

#[test]
fn recording_session_errors_and_wraparound() {
    let mut buffer = CircularBuffer::new(4);
    let mut session = RecordingSession::new();
    let start = session.start(&buffer).unwrap();
    assert_eq!(session.stop(start, &buffer).err(), Some("No audio recorded".to_string()));
    assert!(!session.is_recording());
    let start = session.start(&buffer).unwrap();
    buffer.write_samples(&[1, 2, 3, 4, 5, 6]);
    // only the last four samples are still held
    assert_eq!(session.stop(start, &buffer).unwrap(), vec![3, 4, 5, 6]);
}

#[test]
fn failure_notices() {
    assert_eq!(
        transcription_failure_notice("Failed to connect to socket"),
        "Daemon not found\nStart with: transcribe-daemon"
    );
    assert_eq!(
        transcription_failure_notice("No such file or directory (os error 2)"),
        "Daemon not found\nStart with: transcribe-daemon"
    );
    assert_eq!(transcription_failure_notice("bad audio"), "Transcription failed: bad audio");
}

#[test]
fn prompt_selection() {
    assert_eq!(requested_prompt(Some("  ask \n")), Some("ask".to_string()));
    assert_eq!(requested_prompt(Some("   ")), None);
    assert_eq!(requested_prompt(None), None);
    assert_eq!(gui_prompt_name(None), "chat");
    assert_eq!(gui_prompt_name(Some(" clean\n")), "clean");
}

#[test]
fn delivery_choice() {
    assert_eq!(choose_delivery(true, true, true, true), Delivery::FileChat);
    assert_eq!(choose_delivery(true, false, false, false), Delivery::FileChatDisabled);
    assert_eq!(choose_delivery(false, true, true, true), Delivery::ToolNotification);
    assert_eq!(choose_delivery(false, true, false, true), Delivery::PasteAndRestore);
    assert_eq!(choose_delivery(false, true, false, false), Delivery::ClipboardOnly);
}

#[test]
fn dictation_log_selection() {
    assert_eq!(dictation_log_choice(false, true, true, true, "a", "b"), DictationLog::NoLog);
    assert_eq!(dictation_log_choice(true, true, true, true, "a", "b"), DictationLog::Llm);
    assert_eq!(dictation_log_choice(true, true, true, true, " a ", "a"), DictationLog::NoLog);
    assert_eq!(dictation_log_choice(true, true, false, true, "a", "b"), DictationLog::NoLog);
    assert_eq!(dictation_log_choice(true, false, true, true, "a", "a"), DictationLog::Basic);
    assert_eq!(dictation_log_choice(true, false, true, false, "a", "a"), DictationLog::NoLog);
}

#[test]
fn prompt_tool_selection() {
    let mut config = LlmConfig::default_in("/cfg");
    // default sets are empty, so no prompt gets tools
    assert_eq!(tools_for_prompt(&config, "ask"), None);
    assert_eq!(tools_for_prompt(&config, "clean"), None);
    assert_eq!(tools_for_prompt(&config, "unknown"), None);
    config.tool_sets.insert("all".to_string(), vec!["weather".to_string(), "lights".to_string()]);
    assert_eq!(tools_for_prompt(&config, "clean"), Some(vec!["weather".to_string(), "lights".to_string()]));
    assert_eq!(tools_for_prompt(&config, "ask"), None);
    // a mapping to a set that does not exist gives no tools
    config.prompt_tool_mapping.insert("ask".to_string(), "missing".to_string());
    assert_eq!(tools_for_prompt(&config, "ask"), None);
}

#[test]
fn text_map_insert_get_keys() {
    let mut m: TextMap<u32> = TextMap::new();
    assert!(m.is_empty());
    m.insert("a".to_string(), 1);
    m.insert("b".to_string(), 2);
    m.insert("a".to_string(), 3);
    assert_eq!(m.len(), 2);
    assert_eq!(m.get("a"), Some(&3));
    assert_eq!(m.get("b"), Some(&2));
    assert_eq!(m.get("c"), None);
    let mut keys = m.keys();
    keys.sort();
    assert_eq!(keys, vec!["a".to_string(), "b".to_string()]);
    let copy = m.clone();
    assert_eq!(copy.get("a"), Some(&3));
    assert_eq!(copy.len(), 2);
}

#[test]
fn pcm_decoding() {
    assert_eq!(decode_samples(&[0x01, 0x00, 0xff, 0xff, 0x00, 0x80, 0xff, 0x7f, 0x07]), vec![1, -1, -32768, 32767]);
    assert!(decode_samples(&[0x05]).is_empty());
    assert!(decode_samples(&[]).is_empty());
    assert_eq!(
        capture_args("mic"),
        vec!["-f", "pulse", "-i", "mic", "-ar", "16000", "-ac", "1", "-f", "s16le", "pipe:1"]
    );
    assert_eq!(buffer_capacity(120), 1_920_000);
}

#[test]
fn processing_follows_mode_prompt_and_clear_word() {
    let config = LlmConfig::default();
    match text_processing(true, Some(" ask \n"), "hello", &config) {
        TextProcessing::Conversation { prompt } => assert_eq!(prompt, "ask"),
        other => panic!("unexpected {:?}", other),
    }
    match text_processing(true, None, "hello", &config) {
        TextProcessing::Conversation { prompt } => assert_eq!(prompt, "chat"),
        other => panic!("unexpected {:?}", other),
    }
    assert!(matches!(text_processing(false, None, "hello", &config), TextProcessing::Raw));
    assert!(matches!(text_processing(false, Some("  "), "hello", &config), TextProcessing::Raw));
    match text_processing(false, Some("ask\n"), "Clear.", &config) {
        TextProcessing::ClearHistory { prompt } => assert_eq!(prompt, "ask"),
        other => panic!("unexpected {:?}", other),
    }
    match text_processing(false, Some("ask"), "clear the table", &config) {
        TextProcessing::Llm { prompt } => assert_eq!(prompt, "ask"),
        other => panic!("unexpected {:?}", other),
    }
}
