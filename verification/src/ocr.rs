//! Screen context by OCR: the capture geometry of the active window, the worker process's
//! arguments and result file, and the clean-up of recognised text.
use vstd::prelude::*;
use crate::config::OcrConfig;
use crate::numbers::{decimal, signed_decimal};
use crate::text::{join_with, split_lines, string_views, trimmed};

verus! {

broadcast use vstd::string::group_string_axioms;

/// The message of OCR in a build without text recognition.
pub open spec fn ocr_unavailable() -> Seq<char> {
    "OCR support not compiled. Build with: cargo build --release --features ocr"@
}

/// Recognise the text of an image. Text recognition is not built in, so this reports that.
pub fn perform_ocr(image_path: &str, config: &OcrConfig) -> (r: Result<String, String>)
    ensures
        r matches Err(e) && e@ == ocr_unavailable(),
{
    Err("OCR support not compiled. Build with: cargo build --release --features ocr".to_string())
}

/// The non-blank lines of a text, each without surrounding white space, in order.
pub open spec fn nonblank_lines(lines: Seq<Seq<char>>) -> Seq<Seq<char>>
    decreases lines.len(),
{
    if lines.len() == 0 {
        Seq::empty()
    } else {
        let p = nonblank_lines(lines.drop_last());
        let t = trimmed(lines.last());
        if t.len() > 0 { p.push(t) } else { p }
    }
}

/// Recognised text cleaned up: its non-blank lines, trimmed, joined by line feeds.
pub open spec fn cleaned_text(text: Seq<char>) -> Seq<char> {
    join_with(nonblank_lines(split_lines(text)), "\n"@)
}

/// Clean up recognised text (see [`cleaned_text`]).
pub fn clean_ocr_text(text: &str) -> (r: String)
    ensures
        r@ == cleaned_text(text@),
{
    let lines = crate::text::lines_of(text);
    let ghost ls = string_views(lines@);
    let mut kept: Vec<String> = Vec::new();
    let mut i: usize = 0;
    while i < lines.len()
        invariant
            i <= lines@.len(),
            ls == string_views(lines@),
            string_views(kept@) == nonblank_lines(ls.take(i as int)),
        decreases lines.len() - i,
    {
        proof {
            assert(ls.take(i as int + 1).drop_last() == ls.take(i as int));
        }
        let t = crate::text::trim(lines[i].as_str());
        if !t.as_str().is_empty() {
            let ghost before = string_views(kept@);
            kept.push(t);
            assert(string_views(kept@) =~= before.push(trimmed(ls[i as int])));
        }
        i += 1;
    }
    assert(ls.take(lines@.len() as int) == ls);
    crate::text::join_strings(&kept, "\n")
}

/// The value at `i` of a list of optional integers, or `default` when it is missing.
pub open spec fn value_or(values: Seq<Option<i64>>, i: int, default: i64) -> i64 {
    if 0 <= i < values.len() {
        match values[i] {
            Some(v) => v,
            None => default,
        }
    } else {
        default
    }
}

/// The capture geometry `x,y widthxheight` of a window at `at` with `size` (each a list of the
/// integers found; a missing position is 0, a missing width 800, a missing height 600).
pub open spec fn geometry_text(at: Seq<Option<i64>>, size: Seq<Option<i64>>) -> Seq<char> {
    signed_decimal(value_or(at, 0, 0) as int) + seq![','] + signed_decimal(value_or(at, 1, 0) as int) + seq![' ']
        + signed_decimal(value_or(size, 0, 800) as int) + seq!['x'] + signed_decimal(value_or(size, 1, 600) as int)
}

fn value_at(values: &[Option<i64>], i: usize, default: i64) -> (r: i64)
    ensures
        r == value_or(values@, i as int, default),
{
    if i < values.len() {
        match values[i] {
            Some(v) => v,
            None => default,
        }
    } else {
        default
    }
}

/// The capture geometry of a window (see [`geometry_text`]).
pub fn window_geometry(at: &[Option<i64>], size: &[Option<i64>]) -> (r: String)
    ensures
        r@ == geometry_text(at@, size@),
{
    let x = crate::numbers::i64_to_decimal(value_at(at, 0, 0));
    let y = crate::numbers::i64_to_decimal(value_at(at, 1, 0));
    let w = crate::numbers::i64_to_decimal(value_at(size, 0, 800));
    let h = crate::numbers::i64_to_decimal(value_at(size, 1, 600));
    proof {
        reveal_strlit(",");
        reveal_strlit(" ");
        reveal_strlit("x");
    }
    let mut r = crate::text::concat(x.as_str(), ",");
    r = crate::text::concat(r.as_str(), y.as_str());
    r = crate::text::concat(r.as_str(), " ");
    r = crate::text::concat(r.as_str(), w.as_str());
    r = crate::text::concat(r.as_str(), "x");
    r = crate::text::concat(r.as_str(), h.as_str());
    r
}

/// The arguments of the OCR worker process for a screenshot.
pub open spec fn worker_arguments(screenshot: Seq<char>, config: OcrConfig) -> Seq<Seq<char>> {
    seq!["ocr-worker"@, screenshot, config.result_path@, config.language@, decimal(config.dpi as nat)]
}

/// The arguments of the OCR worker process (see [`worker_arguments`]).
pub fn ocr_worker_args(screenshot_path: &str, config: &OcrConfig) -> (r: Vec<String>)
    ensures
        string_views(r@) == worker_arguments(screenshot_path@, *config),
{
    let mut r: Vec<String> = Vec::new();
    r.push("ocr-worker".to_string());
    r.push(screenshot_path.to_string());
    r.push(config.result_path.clone());
    r.push(config.language.clone());
    r.push(crate::numbers::u64_to_decimal(config.dpi as u64));
    assert(string_views(r@) =~= worker_arguments(screenshot_path@, *config));
    r
}

/// The marker that starts a failed worker's result.
pub open spec fn error_marker() -> Seq<char> {
    "OCR_ERROR:"@
}

/// What the worker writes: the text, or the error after the marker.
pub fn worker_result_text(result: Result<String, String>) -> (r: String)
    ensures
        match result {
            Ok(t) => r@ == t@,
            Err(e) => r@ == "OCR_ERROR: "@ + e@,
        },
{
    match result {
        Ok(t) => t,
        Err(e) => crate::text::concat("OCR_ERROR: ", e.as_str()),
    }
}

/// What a finished worker's result file says: its text, or, when it starts with the error
/// marker, the error (the text after `OCR_ERROR: `, or the whole text without that space).
pub fn read_worker_result(text: &str) -> (r: Result<String, String>)
    ensures
        !crate::text::is_prefix(error_marker(), text@) ==> (r matches Ok(t) && t@ == text@),
        crate::text::is_prefix(error_marker(), text@) ==> (r matches Err(e) && e@ == (
            if crate::text::is_prefix("OCR_ERROR: "@, text@) {
                text@.subrange(11, text@.len() as int)
            } else {
                text@
            })),
{
    match crate::text::strip_prefix(text, "OCR_ERROR:") {
        None => Ok(text.to_string()),
        Some(_) => {
            proof {
                reveal_strlit("OCR_ERROR: ");
            }
            match crate::text::strip_prefix(text, "OCR_ERROR: ") {
                Some(rest) => Err(rest),
                None => Err(text.to_string()),
            }
        },
    }
}

/// What a result file found after the wait timed out gives: its text unless it reports an
/// error.
pub fn late_worker_result(text: &str) -> (r: Option<String>)
    ensures
        !crate::text::is_prefix(error_marker(), text@) ==> (r matches Some(t) && t@ == text@),
        crate::text::is_prefix(error_marker(), text@) ==> r is None,
{
    match crate::text::strip_prefix(text, "OCR_ERROR:") {
        None => Some(text.to_string()),
        Some(_) => None,
    }
}

/// The first line of a text as std's `str::lines` yields it: none for an empty text; otherwise
/// the text up to its first line feed, without a carriage return that ends it, or the whole
/// text when it has no line feed.
pub open spec fn first_line(text: Seq<char>) -> Option<Seq<char>> {
    if text.len() == 0 {
        None
    } else if split_lines(text).len() > 1 {
        let l = split_lines(text)[0];
        Some(if l.len() > 0 && l.last() == '\r' { l.drop_last() } else { l })
    } else {
        Some(text)
    }
}

/// The version line of `tesseract --version` output: its first line, or `unknown version`.
pub fn tesseract_version(output: &str) -> (r: String)
    ensures
        r@ == match first_line(output@) {
            Some(l) => l,
            None => "unknown version"@,
        },
{
    let lines = crate::text::lines_of(output);
    if output.is_empty() {
        return "unknown version".to_string();
    }
    if lines.len() > 1 {
        let chars = crate::text::chars_of(lines[0].as_str());
        if chars.len() > 0 && chars[chars.len() - 1] == '\r' {
            let kept = crate::text::slice_chars(&chars, 0, chars.len() - 1);
            assert(kept@ =~= lines@[0]@.drop_last());
            crate::text::string_from_chars(&kept)
        } else {
            lines[0].clone()
        }
    } else {
        output.to_string()
    }
}

} // verus!
