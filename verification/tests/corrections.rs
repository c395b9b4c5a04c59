use transcribe_rs::transcription_corrections::{
    apply_rule, fuzzy_replace, replace_case_insensitive, replace_literal, resolve_algorithm, tokenize,
    CorrectionRule, MatchingAlgorithm,
};

fn spans(text: &str) -> Vec<(String, usize, usize)> {
    tokenize(text).into_iter().map(|w| (w.text, w.start, w.end)).collect()
}

fn rule(from: &str, to: &str, case_sensitive: bool, fuzzy: bool) -> CorrectionRule {
    CorrectionRule {
        from: from.to_string(),
        to: to.to_string(),
        case_sensitive,
        fuzzy_matching: fuzzy,
        algorithm: MatchingAlgorithm::default(),
    }
}

#[test]
fn words_with_positions() {
    assert_eq!(
        spans("Hello, my name's Sebastian Tuba."),
        vec![
            ("Hello".to_string(), 0, 5),
            ("my".to_string(), 7, 9),
            ("name's".to_string(), 10, 16),
            ("Sebastian".to_string(), 17, 26),
            ("Tuba".to_string(), 27, 31),
        ]
    );
    assert_eq!(spans("end"), vec![("end".to_string(), 0, 3)]);
    assert!(spans("  ,. ").is_empty());
    assert!(spans("").is_empty());
}

#[test]
fn fuzzy_windows_replaced() {
    let text = "Hello, my name is Sebastian Toba.";
    // the window "Sebastian Toba" starts at the fifth word
    let accept = vec![false, false, false, false, true, false];
    assert_eq!(fuzzy_replace(text, "Sebastian Kouba", 2, &accept), "Hello, my name is Sebastian Kouba.");
    // no similar window: nothing changes
    assert_eq!(fuzzy_replace(text, "Sebastian Kouba", 2, &[false; 6]), text);
    // a pattern of no words changes nothing
    assert_eq!(fuzzy_replace(text, "X", 0, &[true; 6]), text);
}

#[test]
fn fuzzy_windows_do_not_overlap() {
    // every window is similar: windows 0-1 and 2-3 are replaced, window 1-2 overlaps the first
    assert_eq!(fuzzy_replace("a b c d", "X", 2, &[true, true, true, true]), "X X");
    // the last word cannot start a two-word window
    assert_eq!(fuzzy_replace("a b c", "X", 2, &[false, false, true]), "a b c");
    assert_eq!(fuzzy_replace("Hi there", "HiQ", 1, &[true, false]), "HiQ there");
}

#[test]
fn literal_replacements() {
    assert_eq!(replace_literal("I work at Hay Q.", "Hay Q", "HiQ"), "I work at HiQ.");
    assert_eq!(replace_literal("I work at Hayq.", "Hay Q", "HiQ"), "I work at Hayq.");
    assert_eq!(replace_literal("ab", "", "-"), "-a-b-");
    assert_eq!(replace_literal("", "", "-"), "-");
    assert_eq!(
        replace_case_insensitive("I work at hay q, HAY Q.", "Hay Q", "HiQ"),
        "I work at HiQ, HiQ."
    );
    assert_eq!(replace_case_insensitive("aaa", "aa", "b"), "ba");
}

#[test]
fn rules_by_kind() {
    assert_eq!(apply_rule("I work at Hay Q.", &rule("Hay Q", "HiQ", false, false), 2, &[]), "I work at HiQ.");
    assert_eq!(apply_rule("I work at hay q.", &rule("Hay Q", "HiQ", true, false), 2, &[]), "I work at hay q.");
    assert_eq!(
        apply_rule("Hug there", &rule("Hi", "HiQ", false, true), 1, &[false, false]),
        "Hug there"
    );
    assert_eq!(apply_rule("Hi there", &rule("Hi", "HiQ", false, true), 1, &[true, false]), "HiQ there");
}

#[test]
fn algorithm_choice() {
    assert_eq!(MatchingAlgorithm::default(), MatchingAlgorithm::Auto);
    assert_eq!(resolve_algorithm(MatchingAlgorithm::Auto, 1), MatchingAlgorithm::JaroWinkler);
    assert_eq!(resolve_algorithm(MatchingAlgorithm::Auto, 2), MatchingAlgorithm::Levenshtein);
    assert_eq!(resolve_algorithm(MatchingAlgorithm::Levenshtein, 1), MatchingAlgorithm::Levenshtein);
    assert_eq!(resolve_algorithm(MatchingAlgorithm::JaroWinkler, 3), MatchingAlgorithm::JaroWinkler);
}
