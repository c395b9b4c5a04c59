use transcribe_rs::text::split_words;
use transcribe_rs::transcription_corrections::{apply_rule, resolve_algorithm, tokenize, CorrectionRule, MatchingAlgorithm};

/// A rule as the corrections file states it, with its similarity threshold.
struct Rule {
    lib: CorrectionRule,
    threshold: f64,
}

fn rule(from: &str, to: &str, fuzzy: bool, threshold: f64, algorithm: MatchingAlgorithm) -> Rule {
    Rule {
        lib: CorrectionRule {
            from: from.to_string(),
            to: to.to_string(),
            case_sensitive: false,
            fuzzy_matching: fuzzy,
            algorithm,
        },
        threshold,
    }
}

/// Which word windows of the text score at least the rule's threshold (stricter for patterns
/// under four bytes), with the length-difference cut-off and the average per-word similarity.
fn accepted(text: &str, rule: &Rule, pattern: &[String]) -> Vec<bool> {
    let words = tokenize(text);
    let algorithm = resolve_algorithm(rule.lib.algorithm, pattern.len());
    let threshold = if rule.lib.from.len() < 4 { 0.95 } else { rule.threshold };
    let pattern_len: usize = pattern.iter().map(|w| w.len()).sum();
    let max_diff = ((pattern_len as f64) * (1.0 - threshold)).ceil() as i64;
    (0..words.len())
        .map(|start| {
            let end = start + pattern.len();
            if pattern.is_empty() || end > words.len() {
                return false;
            }
            let window = &words[start..end];
            let window_len: usize = window.iter().map(|w| w.text.len()).sum();
            if (pattern_len as i64 - window_len as i64).abs() > max_diff {
                return false;
            }
            let total: f64 = pattern
                .iter()
                .zip(window.iter())
                .map(|(p, w)| {
                    let (p, w) = (p.to_lowercase(), w.text.to_lowercase());
                    match algorithm {
                        MatchingAlgorithm::JaroWinkler => {
                            rapidfuzz::distance::jaro_winkler::normalized_similarity(p.chars(), w.chars())
                        }
                        _ => rapidfuzz::distance::levenshtein::normalized_similarity(p.chars(), w.chars()),
                    }
                })
                .sum();
            total / pattern.len() as f64 >= threshold
        })
        .collect()
}

fn correct(text: &str, rule: &Rule) -> String {
    let pattern = split_words(&rule.lib.from);
    let accept = if rule.lib.fuzzy_matching { accepted(text, rule, &pattern) } else { Vec::new() };
    apply_rule(text, &rule.lib, pattern.len(), &accept)
}

#[test]
fn test_fuzzy_matching_name() {
    let r = rule("Sebastian Tuba", "Sebastian Kouba", true, 0.85, MatchingAlgorithm::JaroWinkler);
    assert_eq!(correct("Hello, my name is Sebastian Tuba.", &r), "Hello, my name is Sebastian Kouba.");
    assert_eq!(correct("Hello, my name is Sebastian Toba.", &r), "Hello, my name is Sebastian Kouba.");
    assert_eq!(correct("Hello, my name is Sebastian Tube.", &r), "Hello, my name is Sebastian Kouba.");
}

#[test]
fn test_fuzzy_no_false_positives() {
    let r = rule("Sebastian Tuba", "Sebastian Kouba", true, 0.85, MatchingAlgorithm::JaroWinkler);
    let input = "Hello, my name is Sebastian Smith.";
    assert_eq!(correct(input, &r), input);
}

#[test]
fn test_literal_matching_still_works() {
    let r = rule("Hay Q", "HiQ", false, 0.85, MatchingAlgorithm::Auto);
    assert_eq!(correct("I work at Hay Q.", &r), "I work at HiQ.");
    assert_eq!(correct("I work at Hayq.", &r), "I work at Hayq.");
}

#[test]
fn test_short_string_high_threshold() {
    let r = rule("Hi", "HiQ", true, 0.70, MatchingAlgorithm::Auto);
    assert_eq!(correct("Hug there", &r), "Hug there");
    assert_eq!(correct("Hi there", &r), "HiQ there");
}
