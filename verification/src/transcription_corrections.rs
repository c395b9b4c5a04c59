//! Corrections of recurring transcription errors: the words of a text, the choice of the
//! windows of words that a fuzzy rule replaces, and the literal replacements.
//!
//! Positions are character positions. How similar a window of words is to a rule's pattern is a
//! floating-point score computed by the caller; the functions here take, for each window, whether
//! it was similar enough.
use vstd::prelude::*;
use crate::text::{is_alphanumeric, lowercase};

verus! {

broadcast use vstd::string::group_string_axioms;

/// Matching algorithm for fuzzy string comparison.
#[derive(Debug, Clone, Copy, PartialEq, Eq, Structural)]
pub enum MatchingAlgorithm {
    /// Jaro-Winkler distance (better for names, gives weight to matching prefixes)
    JaroWinkler,
    /// Levenshtein edit distance (better for general text)
    Levenshtein,
    /// Automatically choose based on pattern (single word = JaroWinkler, multi-word = Levenshtein)
    Auto,
}

impl Default for MatchingAlgorithm {
    fn default() -> (r: MatchingAlgorithm)
        ensures
            r == MatchingAlgorithm::Auto,
    {
        MatchingAlgorithm::Auto
    }
}

/// The algorithm a rule uses for a pattern of `pattern_words` words: `Auto` is Jaro-Winkler for a
/// single word and Levenshtein otherwise; the others stand.
pub fn resolve_algorithm(algorithm: MatchingAlgorithm, pattern_words: usize) -> (r: MatchingAlgorithm)
    ensures
        r == match algorithm {
            MatchingAlgorithm::Auto => if pattern_words == 1 {
                MatchingAlgorithm::JaroWinkler
            } else {
                MatchingAlgorithm::Levenshtein
            },
            other => other,
        },
{
    match algorithm {
        MatchingAlgorithm::Auto => if pattern_words == 1 {
            MatchingAlgorithm::JaroWinkler
        } else {
            MatchingAlgorithm::Levenshtein
        },
        other => other,
    }
}

/// A word of a text and where it lies: characters `start..end`.
#[derive(Debug, Clone)]
pub struct Word {
    pub text: String,
    pub start: usize,
    pub end: usize,
}

/// Whether a character belongs to a word: alphanumeric, or an apostrophe.
pub open spec fn is_word_char(c: char) -> bool {
    is_alphanumeric(c) || c == '\''
}

/// The words of a text, each with its start and end position: the maximal runs of word
/// characters, in order.
pub open spec fn word_tokens(s: Seq<char>) -> Seq<(Seq<char>, int, int)>
    decreases s.len(),
{
    if s.len() == 0 {
        Seq::empty()
    } else {
        let p = word_tokens(s.drop_last());
        let i = s.len() - 1;
        let c = s.last();
        if is_word_char(c) {
            if p.len() > 0 && p.last().2 == i {
                p.update(p.len() - 1, (p.last().0.push(c), p.last().1, i + 1))
            } else {
                p.push((seq![c], i, i + 1))
            }
        } else {
            p
        }
    }
}

/// The positions of a list of words are in order within a text of length `n`: each word is
/// non-empty and lies before the next.
pub open spec fn ordered_tokens(t: Seq<(Seq<char>, int, int)>, n: int) -> bool {
    &&& forall|a: int| 0 <= a < t.len() ==> 0 <= #[trigger] t[a].1 < t[a].2 <= n
    &&& forall|a: int, b: int| 0 <= a < b < t.len() ==> #[trigger] t[a].2 < #[trigger] t[b].1
}

proof fn lemma_word_tokens_ordered(s: Seq<char>)
    ensures
        ordered_tokens(word_tokens(s), s.len() as int),
    decreases s.len(),
{
    if s.len() > 0 {
        let p = word_tokens(s.drop_last());
        lemma_word_tokens_ordered(s.drop_last());
        let t = word_tokens(s);
        let i = s.len() - 1;
        if is_word_char(s.last()) {
            if p.len() > 0 && p.last().2 == i {
                assert forall|a: int, b: int| 0 <= a < b < t.len() implies #[trigger] t[a].2 < #[trigger] t[b].1 by {
                    if b == t.len() - 1 {
                        assert(t[b].1 == p[b].1);
                        assert(p[a].2 < p[b].1);
                    } else {
                        assert(p[a].2 < p[b].1);
                    }
                }
            } else {
                assert forall|a: int, b: int| 0 <= a < b < t.len() implies #[trigger] t[a].2 < #[trigger] t[b].1 by {
                    if b == t.len() - 1 {
                        assert(t[a] == p[a]);
                        assert(p[a].2 <= i);
                        if p[a].2 == i {
                            if a < p.len() - 1 {
                                assert(p[a].2 < p[p.len() - 1].1);
                                assert(p[p.len() - 1].1 < p[p.len() - 1].2);
                            }
                        }
                    } else {
                        assert(p[a].2 < p[b].1);
                    }
                }
            }
        }
    }
}

/// The words of a text (see [`word_tokens`]).
pub fn tokenize(text: &str) -> (r: Vec<Word>)
    ensures
        r@.map_values(|w: Word| (w.text@, w.start as int, w.end as int)) == word_tokens(text@),
{
    let chars = crate::text::chars_of(text);
    let mut words: Vec<Word> = Vec::new();
    let mut current: Vec<char> = Vec::new();
    let mut start: usize = 0;
    let mut i: usize = 0;
    while i < chars.len()
        invariant
            i <= chars@.len(),
            chars@ == text@,
            current@.len() > 0 ==> start + current@.len() == i,
            (if current@.len() > 0 {
                words@.map_values(|w: Word| (w.text@, w.start as int, w.end as int)).push(
                    (current@, start as int, i as int),
                )
            } else {
                words@.map_values(|w: Word| (w.text@, w.start as int, w.end as int))
            }) == word_tokens(chars@.take(i as int)),
            current@.len() == 0 ==> forall|a: int| 0 <= a < words@.len() ==> #[trigger] words@[a].end < i,
        decreases chars.len() - i,
    {
        let c = chars[i];
        let ghost before_words = words@.map_values(|w: Word| (w.text@, w.start as int, w.end as int));
        let ghost before_current = current@;
        proof {
            assert(chars@.take(i as int + 1).drop_last() == chars@.take(i as int));
            assert(chars@.take(i as int + 1).last() == c);
            assert(chars@.take(i as int + 1).len() == i + 1);
            lemma_word_tokens_ordered(chars@.take(i as int));
        }
        if crate::text::char_is_alphanumeric(c) || c == '\'' {
            if current.len() == 0 {
                start = i;
            }
            current.push(c);
            proof {
                if before_current.len() > 0 {
                    let p = before_words.push((before_current, start as int, i as int));
                    assert(word_tokens(chars@.take(i as int)) == p);
                    assert(p.last().2 == i);
                    assert(p.update(p.len() - 1, (before_current.push(c), start as int, i + 1)) =~= before_words.push(
                        (current@, start as int, i + 1),
                    ));
                    assert(word_tokens(chars@.take(i as int + 1)) == p.update(p.len() - 1, (before_current.push(c), start as int, i + 1)));
                } else {
                    let p = before_words;
                    assert(word_tokens(chars@.take(i as int)) == p);
                    if p.len() > 0 {
                        assert(p.last().2 == words@[words@.len() - 1].end);
                    }
                    assert(current@ =~= seq![c]);
                    assert(word_tokens(chars@.take(i as int + 1)) == p.push((seq![c], i as int, i + 1)));
                }
            }
        } else if current.len() > 0 {
            let piece = crate::text::string_from_chars(&current);
            words.push(Word { text: piece, start, end: i });
            current = Vec::new();
            proof {
                let t = before_words.push((before_current, start as int, i as int));
                assert(words@.map_values(|w: Word| (w.text@, w.start as int, w.end as int)) =~= t);
                assert forall|a: int| 0 <= a < words@.len() implies #[trigger] words@[a].end < i + 1 by {
                    assert(words@[a].end == t[a].2);
                    if a < t.len() - 1 {
                        assert(t[a].2 < t[t.len() - 1].1);
                    }
                }
            }
        }
        i += 1;
    }
    if current.len() > 0 {
        let ghost before_words = words@.map_values(|w: Word| (w.text@, w.start as int, w.end as int));
        let piece = crate::text::string_from_chars(&current);
        words.push(Word { text: piece, start, end: chars.len() });
        assert(words@.map_values(|w: Word| (w.text@, w.start as int, w.end as int)) =~= before_words.push(
            (current@, start as int, chars@.len() as int),
        ));
    }
    assert(chars@.take(chars@.len() as int) == chars@);
    words
}

/// The windows of `k` consecutive words (by their first word) that a fuzzy rule replaces,
/// scanning window starts from `i` on, after the last replaced window ended at word `last_end`:
/// a window is replaced when it fits in the text, does not overlap the last replaced one, and was
/// found similar enough (`accept`).
pub open spec fn chosen_windows(accept: Seq<bool>, k: int, i: int, last_end: int) -> Seq<int>
    decreases accept.len() - i,
{
    if i >= accept.len() {
        Seq::empty()
    } else if i + k > accept.len() || i < last_end {
        chosen_windows(accept, k, i + 1, last_end)
    } else if accept[i] {
        seq![i].add(chosen_windows(accept, k, i + 1, i + k))
    } else {
        chosen_windows(accept, k, i + 1, last_end)
    }
}

proof fn lemma_chosen_windows(accept: Seq<bool>, k: int, i: int, last_end: int)
    requires
        k >= 1,
        i >= 0,
    ensures
        forall|a: int| 0 <= a < chosen_windows(accept, k, i, last_end).len() ==> {
            let m = #[trigger] chosen_windows(accept, k, i, last_end)[a];
            &&& m >= i
            &&& m >= last_end
            &&& m + k <= accept.len()
        },
        forall|a: int, b: int| 0 <= a < b < chosen_windows(accept, k, i, last_end).len()
            ==> #[trigger] chosen_windows(accept, k, i, last_end)[a] + k <= #[trigger] chosen_windows(accept, k, i, last_end)[b],
    decreases accept.len() - i,
{
    if i < accept.len() {
        if i + k > accept.len() || i < last_end {
            lemma_chosen_windows(accept, k, i + 1, last_end);
            assert(chosen_windows(accept, k, i, last_end) == chosen_windows(accept, k, i + 1, last_end));
        } else if accept[i] {
            lemma_chosen_windows(accept, k, i + 1, i + k);
            let rest = chosen_windows(accept, k, i + 1, i + k);
            let all = chosen_windows(accept, k, i, last_end);
            assert(all == seq![i].add(rest));
            assert forall|a: int, b: int| 0 <= a < b < all.len() implies #[trigger] all[a] + k <= #[trigger] all[b] by {
                if a == 0 {
                    assert(all[b] == rest[b - 1]);
                } else {
                    assert(all[a] == rest[a - 1] && all[b] == rest[b - 1]);
                }
            }
            assert forall|a: int| 0 <= a < all.len() implies ({
                let m = #[trigger] all[a];
                m >= i && m >= last_end && m + k <= accept.len()
            }) by {
                if a > 0 {
                    assert(all[a] == rest[a - 1]);
                }
            }
        } else {
            lemma_chosen_windows(accept, k, i + 1, last_end);
            assert(chosen_windows(accept, k, i, last_end) == chosen_windows(accept, k, i + 1, last_end));
        }
    } else {
        assert(chosen_windows(accept, k, i, last_end).len() == 0);
    }
}

/// Replace characters `span.0..span.1` of `t` by `rep`.
pub open spec fn splice(t: Seq<char>, span: (int, int), rep: Seq<char>) -> Seq<char> {
    t.subrange(0, span.0) + rep + t.subrange(span.1, t.len() as int)
}

/// Replace each span by `rep`, the last span first.
pub open spec fn splice_all(t: Seq<char>, spans: Seq<(int, int)>, rep: Seq<char>) -> Seq<char>
    decreases spans.len(),
{
    if spans.len() == 0 { t } else { splice_all(splice(t, spans.last(), rep), spans.drop_last(), rep) }
}

/// The character span of the window of `k` words starting at word `m`.
pub open spec fn window_span(tokens: Seq<(Seq<char>, int, int)>, m: int, k: int) -> (int, int) {
    (tokens[m].1, tokens[m + k - 1].2)
}

/// The text with the windows of `k` words chosen by a fuzzy rule (`accept` telling, for each
/// window start, whether that window was similar enough) replaced by `rep`; the text as it is for
/// a pattern of no words.
pub open spec fn fuzzy_replaced(text: Seq<char>, rep: Seq<char>, k: int, accept: Seq<bool>) -> Seq<char> {
    if k == 0 {
        text
    } else {
        let tokens = word_tokens(text);
        let windows = chosen_windows(accept, k, 0, 0);
        splice_all(text, windows.map_values(|m: int| window_span(tokens, m, k)), rep)
    }
}

/// The window starts chosen by a fuzzy rule (see [`chosen_windows`]).
fn choose_windows(accept: &[bool], k: usize) -> (r: Vec<usize>)
    requires
        k >= 1,
    ensures
        r@.map_values(|m: usize| m as int) == chosen_windows(accept@, k as int, 0, 0),
{
    let n = accept.len();
    let mut r: Vec<usize> = Vec::new();
    let mut last_end: usize = 0;
    let mut i: usize = 0;
    while i < n
        invariant
            n == accept@.len(),
            i <= n,
            last_end <= n,
            k >= 1,
            r@.map_values(|m: usize| m as int) + chosen_windows(accept@, k as int, i as int, last_end as int)
                == chosen_windows(accept@, k as int, 0, 0),
        decreases n - i,
    {
        let ghost before = r@.map_values(|m: usize| m as int);
        if k <= n - i && i >= last_end && accept[i] {
            r.push(i);
            proof {
                assert(r@.map_values(|m: usize| m as int) =~= before.push(i as int));
                assert(before + chosen_windows(accept@, k as int, i as int, last_end as int) =~= before.push(i as int)
                    + chosen_windows(accept@, k as int, i + 1, i + k));
            }
            last_end = i + k;
        }
        i += 1;
    }
    assert(r@.map_values(|m: usize| m as int) + Seq::<int>::empty() =~= r@.map_values(|m: usize| m as int));
    r
}

/// Replace the windows of `k` words chosen by a fuzzy rule by `rep` (see [`fuzzy_replaced`]);
/// `accept` holds, for each word of the text, whether the window starting there was similar
/// enough.
pub fn fuzzy_replace(text: &str, rep: &str, k: usize, accept: &[bool]) -> (r: String)
    requires
        accept@.len() == word_tokens(text@).len(),
    ensures
        r@ == fuzzy_replaced(text@, rep@, k as int, accept@),
{
    if k == 0 {
        return text.to_string();
    }
    let words = tokenize(text);
    let ghost tokens = word_tokens(text@);
    proof {
        lemma_word_tokens_ordered(text@);
        lemma_chosen_windows(accept@, k as int, 0, 0);
    }
    let windows = choose_windows(accept, k);
    let ghost ws = chosen_windows(accept@, k as int, 0, 0);
    let ghost spans = ws.map_values(|m: int| window_span(tokens, m, k as int));
    let q = crate::text::chars_of(rep);
    let mut cur = crate::text::chars_of(text);
    let n = accept.len();
    let mut j: usize = windows.len();
    assert(spans.take(j as int) == spans);
    proof {
        if j > 0 {
            let m = ws[j - 1];
            assert(m + k <= accept@.len());
            assert(spans[j - 1] == window_span(tokens, m, k as int));
            assert(0 <= tokens[m + k - 1].1 < tokens[m + k - 1].2 <= text@.len());
        }
    }
    while j > 0
        invariant
            j <= windows@.len(),
            windows@.len() == ws.len(),
            forall|a: int| 0 <= a < ws.len() ==> #[trigger] windows@[a] as int == ws[a],
            words@.map_values(|w: Word| (w.text@, w.start as int, w.end as int)) == tokens,
            tokens == word_tokens(text@),
            ordered_tokens(tokens, text@.len() as int),
            spans == ws.map_values(|m: int| window_span(tokens, m, k as int)),
            k >= 1,
            q@ == rep@,
            forall|a: int| 0 <= a < ws.len() ==> {
                let m = #[trigger] ws[a];
                m >= 0 && m + k <= accept@.len()
            },
            forall|a: int, b: int| 0 <= a < b < ws.len() ==> #[trigger] ws[a] + k <= #[trigger] ws[b],
            accept@.len() == tokens.len(),
            n == accept@.len(),
            j > 0 ==> spans[j - 1].1 <= cur@.len(),
            splice_all(text@, spans, rep@) == splice_all(cur@, spans.take(j as int), rep@),
        decreases j,
    {
        let m = windows[j - 1];
        proof {
            assert(m as int == ws[j - 1]);
            assert(ws[j - 1] + k <= accept@.len());
            assert(m + k <= accept@.len());
            assert(accept@.len() == words@.len());
        }
        let last: usize = m + (k - 1);
        let s = words[m].start;
        let e = words[last].end;
        proof {
            assert(tokens[m as int].1 == s && tokens[m + k - 1].2 == e);
            assert(spans[j - 1] == (s as int, e as int));
            assert(tokens[m as int].1 < tokens[m as int].2);
            if k > 1 {
                assert(tokens[m as int].2 < tokens[m + k - 1].1);
            }
            assert(s < e);
        }
        let ghost old_cur = cur@;
        let head = crate::text::slice_chars(&cur, 0, s);
        let tail = crate::text::slice_chars(&cur, e, cur.len());
        let mut next = head;
        let mut qq = crate::text::chars_of(rep);
        next.append(&mut qq);
        let mut tt = tail;
        next.append(&mut tt);
        proof {
            assert(next@ =~= splice(old_cur, spans[j - 1], rep@));
            assert(spans.take(j as int).drop_last() == spans.take(j - 1));
            assert(spans.take(j as int).last() == spans[j - 1]);
            if j > 1 {
                let mp = ws[j - 2];
                assert(mp + k <= ws[j - 1]);
                assert(spans[j - 2] == window_span(tokens, mp, k as int));
                if mp + k - 1 < m {
                    assert(tokens[mp + k - 1].2 < tokens[m as int].1);
                }
                assert(spans[j - 2].1 <= s);
            }
        }
        cur = next;
        j -= 1;
    }
    assert(spans.take(0) =~= Seq::<(int, int)>::empty());
    crate::text::string_from_chars(&cur)
}

/// `rep` before, between and after the characters of `s` (std `str::replace` with an empty
/// pattern).
pub open spec fn interleave(s: Seq<char>, rep: Seq<char>) -> Seq<char>
    decreases s.len(),
{
    if s.len() == 0 { rep } else { rep + seq![s[0]] + interleave(s.drop_first(), rep) }
}

/// `s` with `pat` replaced by `rep` as std's `str::replace` does it.
pub open spec fn replaced(s: Seq<char>, pat: Seq<char>, rep: Seq<char>) -> Seq<char> {
    if pat.len() == 0 { interleave(s, rep) } else { crate::tools::replace_all(s, pat, rep) }
}

/// Replace every occurrence of `from`, matching case exactly (std `str::replace`).
pub fn replace_literal(text: &str, from: &str, to: &str) -> (r: String)
    ensures
        r@ == replaced(text@, from@, to@),
{
    if !from.is_empty() {
        return crate::tools::replace_str(text, from, to);
    }
    let x = crate::text::chars_of(text);
    let q = crate::text::chars_of(to);
    let mut out: Vec<char> = crate::text::chars_of(to);
    let mut i: usize = 0;
    assert(x@.subrange(0, x@.len() as int) == x@);
    while i < x.len()
        invariant
            i <= x@.len(),
            x@ == text@,
            q@ == to@,
            out@ + interleave(x@.subrange(i as int, x@.len() as int), to@).subrange(to@.len() as int, interleave(x@.subrange(i as int, x@.len() as int), to@).len() as int) == interleave(x@, to@),
            interleave(x@.subrange(i as int, x@.len() as int), to@).len() >= to@.len(),
            interleave(x@.subrange(i as int, x@.len() as int), to@).subrange(0, to@.len() as int) == to@,
        decreases x@.len() - i,
    {
        let ghost rest = x@.subrange(i as int, x@.len() as int);
        let ghost before = out@;
        assert(rest.drop_first() =~= x@.subrange(i + 1, x@.len() as int));
        let ghost next = interleave(rest.drop_first(), to@);
        assert(interleave(rest, to@) == to@ + seq![x@[i as int]] + next);
        out.push(x[i]);
        let mut qq = crate::text::chars_of(to);
        out.append(&mut qq);
        proof {
            lemma_interleave_starts(rest.drop_first(), to@);
            assert(interleave(rest, to@).subrange(to@.len() as int, interleave(rest, to@).len() as int) =~= seq![x@[i as int]] + next);
            assert(next =~= to@ + next.subrange(to@.len() as int, next.len() as int));
            assert(out@ + next.subrange(to@.len() as int, next.len() as int) =~= before + (seq![x@[i as int]] + next));
        }
        i += 1;
    }
    proof {
        assert(x@.subrange(x@.len() as int, x@.len() as int) =~= Seq::<char>::empty());
        assert(interleave(Seq::<char>::empty(), to@) == to@);
        assert(to@.subrange(to@.len() as int, to@.len() as int) =~= Seq::<char>::empty());
        assert(out@ + Seq::<char>::empty() =~= out@);
    }
    crate::text::string_from_chars(&out)
}

proof fn lemma_interleave_starts(s: Seq<char>, rep: Seq<char>)
    ensures
        interleave(s, rep).len() >= rep.len(),
        interleave(s, rep).subrange(0, rep.len() as int) == rep,
    decreases s.len(),
{
    if s.len() > 0 {
        lemma_interleave_starts(s.drop_first(), rep);
        assert(interleave(s, rep).subrange(0, rep.len() as int) =~= rep);
    } else {
        assert(interleave(s, rep).subrange(0, rep.len() as int) =~= rep);
    }
}

/// The text with each case-insensitive occurrence of a pattern replaced, scanning from character
/// `i`: where the lower-cased text `lower` holds the lower-cased pattern `pat` at a position,
/// `rep` stands for the `skip` characters of the text there; other characters are kept.
/// Positions in the lower-cased text are taken as positions in the text.
pub open spec fn ci_replaced(text: Seq<char>, lower: Seq<char>, pat: Seq<char>, skip: int, rep: Seq<char>, i: int) -> Seq<char>
    decreases text.len() - i,
{
    if i < 0 || i >= text.len() {
        Seq::empty()
    } else if skip > 0 && crate::text::occurs_at(lower, pat, i) {
        rep + ci_replaced(text, lower, pat, skip, rep, if i + skip <= text.len() { i + skip } else { text.len() as int })
    } else {
        seq![text[i]] + ci_replaced(text, lower, pat, skip, rep, i + 1)
    }
}

/// Replace every case-insensitive occurrence of a non-empty `from` by `to` as given (see
/// [`ci_replaced`], with the lower-cased text and pattern, and the length of `from`).
pub fn replace_case_insensitive(text: &str, from: &str, to: &str) -> (r: String)
    requires
        from@.len() > 0,
    ensures
        r@ == ci_replaced(text@, lowercase(text@), lowercase(from@), from@.len() as int, to@, 0),
{
    let x = crate::text::chars_of(text);
    let lower_text = crate::text::to_lowercase(text);
    let lower = crate::text::chars_of(lower_text.as_str());
    let lower_from = crate::text::to_lowercase(from);
    let p = crate::text::chars_of(lower_from.as_str());
    let skip = crate::text::chars_of(from).len();
    let mut out: Vec<char> = Vec::new();
    let mut i: usize = 0;
    let ghost total = ci_replaced(text@, lower@, p@, skip as int, to@, 0);
    while i < x.len()
        invariant
            x@ == text@,
            lower@ == lowercase(text@),
            p@ == lowercase(from@),
            skip == from@.len(),
            skip > 0,
            total == ci_replaced(text@, lower@, p@, skip as int, to@, 0),
            out@ + ci_replaced(text@, lower@, p@, skip as int, to@, i as int) == total,
        decreases x@.len() - i,
    {
        let ghost before = out@;
        if crate::text::occurs_at_exec(&lower, &p, i) {
            let mut qq = crate::text::chars_of(to);
            out.append(&mut qq);
            let ghost next: int = if i + skip <= x@.len() { i + skip } else { x@.len() as int };
            proof {
                assert(before + (to@ + ci_replaced(text@, lower@, p@, skip as int, to@, next)) =~= out@ + ci_replaced(
                    text@,
                    lower@,
                    p@,
                    skip as int,
                    to@,
                    next,
                ));
            }
            if skip >= x.len() - i {
                i = x.len();
            } else {
                i = i + skip;
            }
        } else {
            out.push(x[i]);
            proof {
                assert(before + (seq![x@[i as int]] + ci_replaced(text@, lower@, p@, skip as int, to@, i + 1)) =~= out@
                    + ci_replaced(text@, lower@, p@, skip as int, to@, i + 1));
            }
            i += 1;
        }
    }
    proof {
        assert(ci_replaced(text@, lower@, p@, skip as int, to@, i as int) == Seq::<char>::empty());
        assert(out@ + Seq::<char>::empty() =~= out@);
    }
    crate::text::string_from_chars(&out)
}

/// A correction rule, without its similarity threshold (which only the caller's scoring uses).
#[derive(Debug, Clone)]
pub struct CorrectionRule {
    /// The incorrect transcription pattern
    pub from: String,
    /// The correct replacement
    pub to: String,
    /// Whether to match case-sensitively
    pub case_sensitive: bool,
    /// Enable fuzzy matching
    pub fuzzy_matching: bool,
    /// Which matching algorithm to use
    pub algorithm: MatchingAlgorithm,
}

/// The text after one rule: a fuzzy rule replaces the windows of `k` words (the number of words of
/// its pattern) chosen by `accept`; otherwise the pattern is replaced literally, matching case
/// exactly or not.
pub open spec fn rule_applied(text: Seq<char>, rule: CorrectionRule, k: int, accept: Seq<bool>) -> Seq<char> {
    if rule.fuzzy_matching {
        fuzzy_replaced(text, rule.to@, k, accept)
    } else if rule.case_sensitive {
        replaced(text, rule.from@, rule.to@)
    } else {
        ci_replaced(text, lowercase(text), lowercase(rule.from@), rule.from@.len() as int, rule.to@, 0)
    }
}

/// Apply one rule to a text (see [`rule_applied`]); `k` is the number of words of the rule's
/// pattern, and `accept` holds, for each word of the text, whether the window of `k` words
/// starting there is similar enough to the pattern.
pub fn apply_rule(text: &str, rule: &CorrectionRule, k: usize, accept: &[bool]) -> (r: String)
    requires
        rule.fuzzy_matching ==> accept@.len() == word_tokens(text@).len(),
        !rule.fuzzy_matching && !rule.case_sensitive ==> rule.from@.len() > 0,
    ensures
        r@ == rule_applied(text@, *rule, k as int, accept@),
{
    if rule.fuzzy_matching {
        fuzzy_replace(text, rule.to.as_str(), k, accept)
    } else if rule.case_sensitive {
        replace_literal(text, rule.from.as_str(), rule.to.as_str())
    } else {
        replace_case_insensitive(text, rule.from.as_str(), rule.to.as_str())
    }
}

proof fn lemma_no_window_accepted(accept: Seq<bool>, k: int, i: int, last_end: int)
    requires
        i >= 0,
        forall|j: int| 0 <= j < accept.len() ==> !#[trigger] accept[j],
    ensures
        chosen_windows(accept, k, i, last_end).len() == 0,
    decreases accept.len() - i,
{
    if i < accept.len() {
        assert(!accept[i]);
        lemma_no_window_accepted(accept, k, i + 1, last_end);
    }
}

/// A fuzzy rule none of whose windows is similar enough leaves the text as it is.
pub proof fn law_dissimilar_text_unchanged(text: Seq<char>, rule: CorrectionRule, k: int, accept: Seq<bool>)
    requires
        rule.fuzzy_matching,
        forall|j: int| 0 <= j < accept.len() ==> !#[trigger] accept[j],
    ensures
        rule_applied(text, rule, k, accept) == text,
{
    lemma_no_window_accepted(accept, k, 0, 0);
    let windows = chosen_windows(accept, k, 0, 0);
    assert(windows.map_values(|m: int| window_span(word_tokens(text), m, k)).len() == 0);
}

} // verus!
