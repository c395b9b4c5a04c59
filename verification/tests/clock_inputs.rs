use transcribe_rs::circular_buffer::CircularBuffer;
use transcribe_rs::config::{prompt_file, prompts_dir};
use transcribe_rs::conversation_history::ConversationHistory;
use transcribe_rs::logging::get_config_path;
use transcribe_rs::numbers::parse_u128;
use transcribe_rs::timing::{parse_start_time, PerformanceMetrics};
use transcribe_rs::transcription_timing::{ApiTimer, TranscriptionTimer};

#[test]
fn timers_measure_from_their_start() {
    let mut t = TranscriptionTimer::new(3000);
    assert_eq!(t.elapsed_ms_at(100), None);
    assert_eq!(t.stop_and_log_at(vec!["1,2".to_string()], 100), None);
    t.start_at(1_000);
    assert_eq!(t.elapsed_ms_at(1_250), Some(250));
    assert_eq!(t.elapsed_ms_at(900), Some(0));
    let (elapsed, lines) = t.stop_and_log_at(vec!["1,2".to_string()], 1_400).unwrap();
    assert_eq!(elapsed, 400);
    assert_eq!(lines, vec!["1,2".to_string(), "3000,400".to_string()]);

    let mut a = ApiTimer::new(42);
    a.start_at(50);
    assert_eq!(a.elapsed_ms_at(80), Some(30));
    let (elapsed, lines) = a.stop_and_log_at(Vec::new(), 75).unwrap();
    assert_eq!(elapsed, 25);
    assert_eq!(lines, vec!["42,25".to_string()]);
}

#[test]
fn marks_store_the_given_instant() {
    let mut m = PerformanceMetrics::from_start_time(10);
    m.mark_recording_stop_at(20);
    m.mark_transcription_done_at(30);
    m.mark_processing_done_at(40);
    m.mark_clipboard_done_at(50);
    m.mark_paste_done_at(60);
    assert_eq!(m.start_ns, 10);
    assert_eq!(m.recording_stop_ns, Some(20));
    assert_eq!(m.transcription_done_ns, Some(30));
    assert_eq!(m.processing_done_ns, Some(40));
    assert_eq!(m.clipboard_done_ns, Some(50));
    assert_eq!(m.paste_done_ns, Some(60));
}

#[test]
fn history_entries_carry_the_given_time() {
    let h = ConversationHistory::new("ask", 5, 10, "/tmp");
    let u = h.append_user_at("hi", true, 1234);
    assert_eq!((u.timestamp, u.role.as_str(), u.content.as_str(), u.is_first), (1234, "user", "hi", true));
    let a = h.append_assistant_at("hello", 1240);
    assert_eq!((a.timestamp, a.role.as_str(), a.content.as_str(), a.is_first), (1240, "assistant", "hello", false));
}

#[test]
fn start_time_text_is_read_back() {
    assert_eq!(parse_start_time(" 1700000000123456789\n"), Some(1_700_000_000_123_456_789));
    assert_eq!(parse_start_time("abc"), None);
    assert_eq!(parse_start_time(""), None);
    assert_eq!(parse_u128("340282366920938463463374607431768211455"), Some(u128::MAX));
    assert_eq!(parse_u128("340282366920938463463374607431768211456"), None);
    assert_eq!(parse_u128("+12"), Some(12));
}

#[test]
fn prompt_and_logging_paths() {
    assert_eq!(prompt_file("/home/u/.config/transcribe-rs/prompts", "clean"), "/home/u/.config/transcribe-rs/prompts/clean.md");
    if let Ok(dir) = prompts_dir() {
        assert!(dir.ends_with("transcribe-rs/prompts"));
    }
    if let Some(p) = get_config_path() {
        assert!(p.ends_with("transcribe-rs/logging.yaml"));
    }
}

#[test]
fn newest_samples_read_back_one_by_one() {
    let mut b = CircularBuffer::new(4);
    b.write_samples(&[1, 2, 3]);
    let at = b.write_samples(&[4, 5, 6, 7, 8]);
    for (i, s) in [4i16, 5, 6, 7, 8].iter().enumerate() {
        let expected = if 5 - i <= 4 { vec![*s] } else { Vec::new() };
        assert_eq!(b.extract_range(at + i, 1), expected);
    }
}
