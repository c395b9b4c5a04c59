use transcribe_rs::clipboard::{add_trailing_space_after_punctuation, SavedClipboard};
use transcribe_rs::dictation_logger::{csv_escape, generate_diff};
use transcribe_rs::file_watcher::{is_audio_file, is_in_processed_dir};
use transcribe_rs::text::trim;
use transcribe_rs::terminal_detect::{
    cached_terminal_result, is_active_window_terminal, is_active_window_terminal_uncached, is_terminal_class, TerminalCache,
};

#[test]
fn test_add_space_after_period() {
    let input = "Hello world.";
    let result = add_trailing_space_after_punctuation(input);
    assert_eq!(result, "Hello world. ");
}

#[test]
fn test_add_space_after_question() {
    let input = "How are you?";
    let result = add_trailing_space_after_punctuation(input);
    assert_eq!(result, "How are you? ");
}

#[test]
fn test_add_space_after_exclamation() {
    let input = "Wow!";
    let result = add_trailing_space_after_punctuation(input);
    assert_eq!(result, "Wow! ");
}

#[test]
fn test_no_space_after_comma() {
    let input = "Hello world, how are you";
    let result = add_trailing_space_after_punctuation(input);
    assert_eq!(result, "Hello world, how are you");
}

#[test]
fn test_empty_string() {
    let input = "";
    let result = add_trailing_space_after_punctuation(input);
    assert_eq!(result, "");
}

#[test]
fn saved_clipboard_keeps_its_content() {
    let saved = SavedClipboard::from_content(Some(vec![1, 2, 3]));
    assert!(saved.has_content());
    assert_eq!(saved.into_content(), Some(vec![1, 2, 3]));
    assert!(!SavedClipboard::from_content(None).has_content());
}

#[test]
fn test_csv_escape_simple() {
    assert_eq!(csv_escape("hello"), "hello");
    assert_eq!(csv_escape("hello world"), "hello world");
}

#[test]
fn test_csv_escape_comma() {
    assert_eq!(csv_escape("hello, world"), "\"hello, world\"");
}

#[test]
fn test_csv_escape_quotes() {
    assert_eq!(csv_escape("hello \"world\""), "\"hello \"\"world\"\"\"");
}

#[test]
fn test_csv_escape_newline() {
    assert_eq!(csv_escape("hello\nworld"), "\"hello\nworld\"");
}

#[test]
fn csv_escape_carriage_return() {
    assert_eq!(csv_escape("a\rb"), "\"a\rb\"");
}

#[test]
fn test_generate_diff() {
    let diff = generate_diff("hello world", "hello there");
    assert!(diff.contains("[-world]"));
    assert!(diff.contains("[+there]"));

    let diff = generate_diff("same text", "same text");
    assert_eq!(diff, "(no changes)");

    let diff = generate_diff("the quick brown fox", "the fast brown dog");
    assert!(diff.contains("[-quick]"));
    assert!(diff.contains("[+fast]"));
    assert!(diff.contains("[-fox]"));
    assert!(diff.contains("[+dog]"));
}

#[test]
fn test_is_audio_file() {
    let extensions = vec!["wav".to_string(), "m4a".to_string(), "mp3".to_string()];

    assert!(is_audio_file("test.wav", &extensions));
    assert!(is_audio_file("test.WAV", &extensions));
    assert!(is_audio_file("test.m4a", &extensions));
    assert!(is_audio_file("test.mp3", &extensions));
    assert!(!is_audio_file("test.txt", &extensions));
    assert!(!is_audio_file("test", &extensions));
}

#[test]
fn test_is_in_processed_dir() {
    assert!(is_in_processed_dir("/foo/processed/bar.wav"));
    assert!(is_in_processed_dir("watch/processed/test.m4a"));
    assert!(!is_in_processed_dir("/foo/watch/bar.wav"));
    assert!(!is_in_processed_dir("test.wav"));
}

#[test]
fn test_terminal_detection_logic() {
    let terminal_apps = ["alacritty", "kitty", "wezterm", "foot"];

    for app in &terminal_apps {
        assert!(is_terminal_class(app));
    }
}

#[test]
fn terminal_classes_and_cache() {
    assert!(is_terminal_class("org.wezfurlong.wezterm"));
    assert!(!is_terminal_class("firefox"));
    assert!(!is_active_window_terminal_uncached(None));
    assert!(is_active_window_terminal_uncached(Some("kitty")));
    assert_eq!(cached_terminal_result(Some((1000, true)), 2999), Some(true));
    assert_eq!(cached_terminal_result(Some((1000, true)), 3000), None);
    assert_eq!(cached_terminal_result(None, 3000), None);
}

#[test]
fn terminal_detection_is_cached_for_two_seconds() {
    let mut cache = TerminalCache::new();
    assert!(is_active_window_terminal(&mut cache, 1000, || Some("kitty".to_string())));
    // still cached: the class is not looked up again
    assert!(is_active_window_terminal(&mut cache, 2999, || -> Option<String> { panic!("class looked up") }));
    // expired: looked up again
    assert!(!is_active_window_terminal(&mut cache, 3000, || Some("firefox".to_string())));
    assert!(!is_active_window_terminal(&mut cache, 3500, || -> Option<String> { panic!("class looked up") }));
    assert!(!is_active_window_terminal(&mut cache, 10_000, || None));
    assert!(is_active_window_terminal(&mut cache, 20_000, || Some("org.wezfurlong.wezterm".to_string())));
}

#[test]
fn paste_keys_for_terminals() {
    assert_eq!(
        transcribe_rs::clipboard::paste_key_args(true),
        vec!["key", "29:1", "42:1", "47:1", "47:0", "42:0", "29:0"]
    );
    assert_eq!(transcribe_rs::clipboard::paste_key_args(false), vec!["key", "29:1", "47:1", "47:0", "29:0"]);
}

#[test]
fn white_space_matches_std_on_low_planes() {
    for n in 0u32..=0x3100 {
        if let Some(c) = char::from_u32(n) {
            let s = format!("{}x{}", c, c);
            assert_eq!(trim(&s), s.trim(), "code point {:#x}", n);
        }
    }
}
