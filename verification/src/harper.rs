//! Grammar and spelling correction sessions: the dialects, the record of the corrections made
//! to a transcription, where a session is saved, and the words of the user's dictionary.
use vstd::prelude::*;
use crate::conversation_state::{file_stamp_pattern, time_text, Timestamp};
use crate::text::{split_lines, string_views, trimmed};

verus! {

broadcast use vstd::string::group_string_axioms;

/// The English dialect checked against.
#[derive(Debug, Clone, Copy, PartialEq, Eq, Structural)]
pub enum Dialect {
    American,
    British,
    Australian,
    Canadian,
}

/// A record of a single correction.
#[derive(Debug)]
pub struct HarperCorrection {
    /// Character span in the original text
    pub span: (usize, usize),
    /// The original text that was flagged
    pub original: String,
    /// The replacement that was applied
    pub replacement: String,
    /// Type of lint (Spelling, Grammar, etc.)
    pub lint_kind: String,
    /// The checker's explanation message
    pub message: String,
}

/// A session recording all corrections made to a single transcription.
#[derive(Debug)]
pub struct CorrectionSession {
    /// When the session took place (UTC)
    pub timestamp: Timestamp,
    pub original_text: String,
    pub corrected_text: String,
    pub corrections: Vec<HarperCorrection>,
}

impl CorrectionSession {
    /// Check if any corrections were made.
    pub fn has_corrections(&self) -> (r: bool)
        ensures
            r == (self.corrections@.len() > 0),
    {
        self.corrections.len() > 0
    }

    /// The name of the file the session is saved to: its time as `YYYY-MM-DD_HH-MM-SS.json`.
    pub fn file_name(&self) -> (r: String)
        ensures
            r@ == time_text(self.timestamp, file_stamp_pattern()) + ".json"@,
    {
        let stamp = crate::conversation_state::format_time(&self.timestamp, "%Y-%m-%d_%H-%M-%S");
        crate::text::concat(stamp.as_str(), ".json")
    }
}

/// The words of a dictionary file: its lines without surrounding white space, leaving out
/// blank lines and lines starting with `#`, in order.
pub open spec fn dictionary_entries(lines: Seq<Seq<char>>) -> Seq<Seq<char>>
    decreases lines.len(),
{
    if lines.len() == 0 {
        Seq::empty()
    } else {
        let p = dictionary_entries(lines.drop_last());
        let w = trimmed(lines.last());
        if w.len() > 0 && w[0] != '#' { p.push(w) } else { p }
    }
}

/// The words of a user dictionary file's content (see [`dictionary_entries`]).
pub fn dictionary_words(contents: &str) -> (r: Vec<String>)
    ensures
        string_views(r@) == dictionary_entries(split_lines(contents@)),
{
    let lines = crate::text::lines_of(contents);
    let ghost ls = string_views(lines@);
    let mut words: Vec<String> = Vec::new();
    let mut i: usize = 0;
    while i < lines.len()
        invariant
            i <= lines@.len(),
            ls == string_views(lines@),
            string_views(words@) == dictionary_entries(ls.take(i as int)),
        decreases lines.len() - i,
    {
        proof {
            assert(ls.take(i as int + 1).drop_last() == ls.take(i as int));
        }
        let w = crate::text::trim(lines[i].as_str());
        let chars = crate::text::chars_of(w.as_str());
        if chars.len() > 0 && chars[0] != '#' {
            let ghost before = string_views(words@);
            words.push(w);
            assert(string_views(words@) =~= before.push(trimmed(ls[i as int])));
        }
        i += 1;
    }
    assert(ls.take(lines@.len() as int) == ls);
    words
}

} // verus!
