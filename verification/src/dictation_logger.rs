//! CSV formatting of dictation logs and compact word diffs.
use vstd::prelude::*;
use crate::text::{chars_of, string_from_chars, trimmed, trim_chars};

verus! {

/// Whether a character forces a CSV field to be quoted.
pub open spec fn needs_quoting(c: char) -> bool {
    c == ',' || c == '"' || c == '\n' || c == '\r'
}

/// `s` with every double quote doubled.
pub open spec fn double_quotes(s: Seq<char>) -> Seq<char>
    decreases s.len(),
{
    if s.len() == 0 {
        Seq::empty()
    } else {
        double_quotes(s.drop_last()) + if s.last() == '"' { seq!['"', '"'] } else { seq![s.last()] }
    }
}

/// The CSV field for a text: quoted, with quotes doubled, when it holds a comma, quote or line
/// break; the text itself otherwise.
pub open spec fn csv_field(s: Seq<char>) -> Seq<char> {
    if exists|i: int| 0 <= i < s.len() && needs_quoting(#[trigger] s[i]) {
        seq!['"'] + double_quotes(s) + seq!['"']
    } else {
        s
    }
}

/// Escape a string for CSV format.
/// Wraps in quotes if necessary and escapes internal quotes.
pub fn csv_escape(s: &str) -> (r: String)
    ensures
        r@ == csv_field(s@),
{
    let chars = chars_of(s);
    let mut needs = false;
    let mut i: usize = 0;
    while i < chars.len()
        invariant
            i <= chars.len(),
            needs == exists|j: int| 0 <= j < i && needs_quoting(#[trigger] chars@[j]),
        decreases chars.len() - i,
    {
        let c = chars[i];
        if c == ',' || c == '"' || c == '\n' || c == '\r' {
            needs = true;
        }
        i += 1;
    }
    if !needs {
        return string_from_chars(&chars);
    }
    let mut out: Vec<char> = Vec::new();
    out.push('"');
    let mut k: usize = 0;
    while k < chars.len()
        invariant
            k <= chars.len(),
            out@ == seq!['"'] + double_quotes(chars@.take(k as int)),
        decreases chars.len() - k,
    {
        let c = chars[k];
        if c == '"' {
            out.push('"');
            out.push('"');
        } else {
            out.push(c);
        }
        proof {
            let t = chars@.take(k as int + 1);
            assert(t.drop_last() == chars@.take(k as int));
            assert(t.last() == c);
        }
        k += 1;
    }
    out.push('"');
    assert(chars@.take(chars.len() as int) == chars@);
    string_from_chars(&out)
}

/// Kind of a change between two texts.
#[derive(Debug, Clone, Copy, PartialEq, Eq)]
pub enum ChangeTag {
    Equal,
    Delete,
    Insert,
}

/// The word-level changes that turn `original` into `corrected`, in order, as the `similar`
/// crate's `TextDiff::from_words` computes them.
pub uninterp spec fn word_diff(original: Seq<char>, corrected: Seq<char>) -> Seq<(ChangeTag, Seq<char>)>;

/// Word-level diff of two texts (`similar::TextDiff::from_words`, then `iter_all_changes`).
#[verifier::external_body]
fn word_changes(original: &str, corrected: &str) -> (r: Vec<(ChangeTag, String)>)
    ensures
        r@.map_values(|c: (ChangeTag, String)| (c.0, c.1@)) == word_diff(original@, corrected@),
{
    let diff = similar::TextDiff::from_words(original, corrected);
    diff.iter_all_changes()
        .map(|c| {
            let tag = match c.tag() {
                similar::ChangeTag::Equal => ChangeTag::Equal,
                similar::ChangeTag::Delete => ChangeTag::Delete,
                similar::ChangeTag::Insert => ChangeTag::Insert,
            };
            (tag, c.value().to_string())
        })
        .collect()
}

/// The marks of the changed words: `[-word]` for a deletion, `[+word]` for an insertion.
pub open spec fn change_marks(changes: Seq<(ChangeTag, Seq<char>)>) -> Seq<Seq<char>>
    decreases changes.len(),
{
    if changes.len() == 0 {
        Seq::empty()
    } else {
        let rest = change_marks(changes.drop_last());
        let c = changes.last();
        match c.0 {
            ChangeTag::Delete => rest.push(seq!['[', '-'] + trimmed(c.1) + seq![']']),
            ChangeTag::Insert => rest.push(seq!['[', '+'] + trimmed(c.1) + seq![']']),
            ChangeTag::Equal => rest,
        }
    }
}

/// The items of `parts` separated by `sep`.
pub open spec fn join(parts: Seq<Seq<char>>, sep: Seq<char>) -> Seq<char>
    decreases parts.len(),
{
    if parts.len() == 0 {
        Seq::empty()
    } else if parts.len() == 1 {
        parts[0]
    } else {
        join(parts.drop_last(), sep) + sep + parts.last()
    }
}

/// The compact rendering of a list of changes: the marks joined by spaces, or
/// `(no changes)` when nothing changed.
pub open spec fn diff_summary(changes: Seq<(ChangeTag, Seq<char>)>) -> Seq<char> {
    let marks = change_marks(changes);
    if marks.len() == 0 { "(no changes)"@ } else { join(marks, seq![' ']) }
}

/// Renders a list of word changes compactly (see [`diff_summary`]).
pub fn summarize_changes(changes: &Vec<(ChangeTag, String)>) -> (r: String)
    ensures
        r@ == diff_summary(changes@.map_values(|c: (ChangeTag, String)| (c.0, c.1@))),
{
    let ghost cs = changes@.map_values(|c: (ChangeTag, String)| (c.0, c.1@));
    let mut out: Vec<char> = Vec::new();
    let mut count: usize = 0;
    let mut i: usize = 0;
    while i < changes.len()
        invariant
            i <= changes.len(),
            cs == changes@.map_values(|c: (ChangeTag, String)| (c.0, c.1@)),
            count == change_marks(cs.take(i as int)).len(),
            count <= i,
            out@ == join(change_marks(cs.take(i as int)), seq![' ']),
        decreases changes.len() - i,
    {
        let tag = changes[i].0;
        proof {
            assert(cs.take(i as int + 1).drop_last() == cs.take(i as int));
            assert(cs.take(i as int + 1).last() == cs[i as int]);
        }
        match tag {
            ChangeTag::Equal => {},
            _ => {
                let ghost before = out@;
                if count > 0 {
                    out.push(' ');
                }
                out.push('[');
                match tag {
                    ChangeTag::Delete => out.push('-'),
                    _ => out.push('+'),
                }
                let mut word = trim_chars(&chars_of(changes[i].1.as_str()));
                out.append(&mut word);
                out.push(']');
                count += 1;
                proof {
                    let sign = if tag is Delete { '-' } else { '+' };
                    let mark = seq!['[', sign] + trimmed(cs[i as int].1) + seq![']'];
                    let marks_old = change_marks(cs.take(i as int));
                    assert(change_marks(cs.take(i as int + 1)) == marks_old.push(mark));
                    assert(marks_old.push(mark).drop_last() =~= marks_old);
                    if count > 1 {
                        assert(out@ =~= before + seq![' '] + mark);
                    } else {
                        assert(out@ =~= mark);
                    }
                }
            },
        }
        i += 1;
    }
    assert(cs.take(changes.len() as int) == cs);
    if count == 0 {
        return "(no changes)".to_string();
    }
    string_from_chars(&out)
}

/// Generate a compact inline diff showing changes between two texts.
/// Returns a string showing deletions and insertions.
pub fn generate_diff(original: &str, corrected: &str) -> (r: String)
    ensures
        r@ == diff_summary(word_diff(original@, corrected@)),
{
    let changes = word_changes(original, corrected);
    summarize_changes(&changes)
}

} // verus!
