use transcribe_rs::conversation_state::Timestamp;
use transcribe_rs::harper::{dictionary_words, CorrectionSession, Dialect, HarperCorrection};
use transcribe_rs::vad::{extract_speech, SpeechSegment};

fn session(corrections: Vec<HarperCorrection>) -> CorrectionSession {
    CorrectionSession {
        timestamp: Timestamp { secs: 1_709_647_629, nanos: 0, offset_secs: 0 },
        original_text: "This is a teh test.".to_string(),
        corrected_text: "This is a the test.".to_string(),
        corrections,
    }
}

#[test]
fn correction_sessions() {
    assert!(!session(vec![]).has_corrections());
    let c = HarperCorrection {
        span: (10, 13),
        original: "teh".to_string(),
        replacement: "the".to_string(),
        lint_kind: "Spelling".to_string(),
        message: "Did you mean \"the\"?".to_string(),
    };
    let s = session(vec![c]);
    assert!(s.has_corrections());
    assert_eq!(s.file_name(), "2024-03-05_14-07-09.json");
    assert_eq!(Dialect::American, Dialect::American);
    assert_ne!(Dialect::British, Dialect::Canadian);
}

#[test]
fn user_dictionary_words() {
    assert_eq!(
        dictionary_words("# Test dictionary\nLLM\n  Parakeet  \n\n#skip\nHyprland"),
        vec!["LLM".to_string(), "Parakeet".to_string(), "Hyprland".to_string()]
    );
    assert!(dictionary_words("").is_empty());
    assert!(dictionary_words("# only a comment\n").is_empty());
}

#[test]
fn speech_extraction() {
    let samples: Vec<i16> = (0..10).collect();
    let segments = vec![SpeechSegment { start: 1, end: 3 }, SpeechSegment { start: 6, end: 8 }];
    assert_eq!(extract_speech(&samples, &segments), vec![1, 2, 6, 7]);
    // segments reaching past the audio are cut at its end
    let late = vec![SpeechSegment { start: 8, end: 20 }, SpeechSegment { start: 15, end: 30 }];
    assert_eq!(extract_speech(&samples, &late), vec![8, 9]);
    assert!(extract_speech(&samples, &[]).is_empty());
    let floats = vec![0.5f32, -0.5, 0.25];
    assert_eq!(extract_speech(&floats, &[SpeechSegment { start: 1, end: 3 }]), vec![-0.5, 0.25]);
}
