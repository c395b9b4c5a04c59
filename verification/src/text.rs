//! Character-level helpers shared by the text-processing parts of the library.
use vstd::prelude::*;

verus! {

broadcast use vstd::string::group_string_axioms;

/// Appends one character to a `String` (std `String::push`).
#[verifier::external_body]
pub(crate) fn push_char(s: &mut String, c: char)
    ensures
        final(s)@ == old(s)@.push(c),
{
    s.push(c);
}

/// The characters of a string slice, in order.
pub fn chars_of(s: &str) -> (r: Vec<char>)
    ensures
        r@ == s@,
{
    let mut r: Vec<char> = Vec::new();
    for c in it: s.chars()
        invariant
            r@ == it.seq().take(it.index() as int),
            it.seq() == s@,
    {
        r.push(c);
    }
    r
}

/// Builds a `String` holding exactly the given characters.
pub fn string_from_chars(v: &[char]) -> (r: String)
    ensures
        r@ == v@,
{
    let mut r = String::new();
    let mut i: usize = 0;
    while i < v.len()
        invariant
            i <= v.len(),
            r@ == v@.take(i as int),
        decreases v.len() - i,
    {
        push_char(&mut r, v[i]);
        assert(v@.take(i as int + 1) == v@.take(i as int).push(v@[i as int]));
        i += 1;
    }
    assert(v@.take(v.len() as int) == v@);
    r
}

/// Whether two string slices hold the same characters.
pub fn str_eq(a: &str, b: &str) -> (r: bool)
    ensures
        r == (a@ == b@),
{
    let x = chars_of(a);
    let y = chars_of(b);
    if x.len() != y.len() {
        return false;
    }
    let mut i: usize = 0;
    while i < x.len()
        invariant
            x@ == a@,
            y@ == b@,
            x.len() == y.len(),
            i <= x.len(),
            forall|j: int| 0 <= j < i ==> x@[j] == y@[j],
        decreases x.len() - i,
    {
        if x[i] != y[i] {
            return false;
        }
        i += 1;
    }
    assert(x@ =~= y@);
    true
}


/// Unicode lower-case mapping of a string, as std's `str::to_lowercase` computes it.
pub uninterp spec fn lowercase(s: Seq<char>) -> Seq<char>;

/// The upper-case form of a string as std's `str::to_uppercase` computes it.
pub uninterp spec fn uppercase(s: Seq<char>) -> Seq<char>;

/// Upper-cases a string (std `str::to_uppercase`).
#[verifier::external_body]
pub(crate) fn to_uppercase(s: &str) -> (r: String)
    ensures
        r@ == uppercase(s@),
{
    s.to_uppercase()
}

/// Lower-cases a string (std `str::to_lowercase`).
#[verifier::external_body]
pub(crate) fn to_lowercase(s: &str) -> (r: String)
    ensures
        r@ == lowercase(s@),
{
    s.to_lowercase()
}

/// The concatenation of two strings.
pub fn concat(a: &str, b: &str) -> (r: String)
    ensures
        r@ == a@ + b@,
{
    let mut x = chars_of(a);
    let mut y = chars_of(b);
    x.append(&mut y);
    string_from_chars(&x)
}

/// Whether `p` is a prefix of `s`.
pub open spec fn is_prefix(p: Seq<char>, s: Seq<char>) -> bool {
    p.len() <= s.len() && s.subrange(0, p.len() as int) == p
}

/// Whether `p` occurs in `s` starting at position `i`.
pub open spec fn occurs_at(s: Seq<char>, p: Seq<char>, i: int) -> bool {
    0 <= i && i + p.len() <= s.len() && s.subrange(i, i + p.len()) == p
}

/// Whether `p` occurs anywhere in `s`.
pub open spec fn contains_seq(s: Seq<char>, p: Seq<char>) -> bool {
    exists|i: int| occurs_at(s, p, i)
}

/// Whether `p` occurs in `s` at position `i` (characters compared one by one).
pub fn occurs_at_exec(s: &Vec<char>, p: &Vec<char>, i: usize) -> (r: bool)
    ensures
        r == occurs_at(s@, p@, i as int),
{
    if i > s.len() || p.len() > s.len() - i {
        return false;
    }
    let mut j: usize = 0;
    while j < p.len()
        invariant
            i + p.len() <= s.len(),
            j <= p.len(),
            forall|k: int| 0 <= k < j ==> s@[i + k] == p@[k],
        decreases p.len() - j,
    {
        if s[i + j] != p[j] {
            assert(s@.subrange(i as int, i + p.len())[j as int] != p@[j as int]);
            return false;
        }
        j += 1;
    }
    assert(s@.subrange(i as int, i + p.len()) =~= p@);
    true
}

/// Whether `p` occurs in `s`.
pub fn contains_chars(s: &Vec<char>, p: &Vec<char>) -> (r: bool)
    ensures
        r == contains_seq(s@, p@),
{
    if p.len() == 0 {
        assert(s@.subrange(0, 0) =~= p@);
        assert(occurs_at(s@, p@, 0));
        return true;
    }
    if p.len() > s.len() {
        return false;
    }
    let last = s.len() - p.len();
    let mut i: usize = 0;
    while i <= last
        invariant
            last == s.len() - p.len(),
            last < s.len(),
            i <= last + 1,
            forall|k: int| 0 <= k < i ==> !occurs_at(s@, p@, k),
        decreases last + 1 - i,
    {
        if occurs_at_exec(s, p, i) {
            return true;
        }
        i += 1;
    }
    assert forall|k: int| !occurs_at(s@, p@, k) by {
        if 0 <= k && k + p@.len() <= s@.len() {
            assert(k < i);
        }
    }
    false
}

/// Whether `p` occurs in `s`.
pub fn str_contains(s: &str, p: &str) -> (r: bool)
    ensures
        r == contains_seq(s@, p@),
{
    contains_chars(&chars_of(s), &chars_of(p))
}

/// The rest of `s` after the prefix `p`, when `s` starts with `p`.
pub fn strip_prefix(s: &str, p: &str) -> (r: Option<String>)
    ensures
        r is Some <==> is_prefix(p@, s@),
        r is Some ==> r->0@ == s@.subrange(p@.len() as int, s@.len() as int),
{
    let x = chars_of(s);
    let y = chars_of(p);
    if occurs_at_exec(&x, &y, 0) {
        let mut rest: Vec<char> = Vec::new();
        let mut i = y.len();
        while i < x.len()
            invariant
                y.len() <= i <= x.len(),
                rest@ == x@.subrange(y.len() as int, i as int),
            decreases x.len() - i,
        {
            rest.push(x[i]);
            assert(x@.subrange(y.len() as int, i + 1) == x@.subrange(y.len() as int, i as int).push(x@[i as int]));
            i += 1;
        }
        Some(string_from_chars(&rest))
    } else {
        None
    }
}


/// Whether a character has the Unicode White_Space property (std's `char::is_whitespace`):
/// the controls U+0009 to U+000D, space, U+0085, no-break space, ogham space mark, the spaces
/// U+2000 to U+200A, the line and paragraph separators, the narrow no-break space, the medium
/// mathematical space and the ideographic space.
pub open spec fn is_whitespace(c: char) -> bool {
    let n = c as u32;
    ||| 0x09 <= n <= 0x0D
    ||| n == 0x20
    ||| n == 0x85
    ||| n == 0xA0
    ||| n == 0x1680
    ||| 0x2000 <= n <= 0x200A
    ||| n == 0x2028
    ||| n == 0x2029
    ||| n == 0x202F
    ||| n == 0x205F
    ||| n == 0x3000
}

/// Whether a character is white space (see [`is_whitespace`]).
pub(crate) fn char_is_whitespace(c: char) -> (r: bool)
    ensures
        r == is_whitespace(c),
{
    let n = c as u32;
    (0x09 <= n && n <= 0x0D) || n == 0x20 || n == 0x85 || n == 0xA0 || n == 0x1680
        || (0x2000 <= n && n <= 0x200A) || n == 0x2028 || n == 0x2029 || n == 0x202F || n == 0x205F
        || n == 0x3000
}

/// Number of leading white-space characters of `s`.
pub open spec fn leading_ws(s: Seq<char>) -> int
    decreases s.len(),
{
    if s.len() == 0 || !is_whitespace(s[0]) { 0 } else { 1 + leading_ws(s.drop_first()) }
}

/// Number of trailing white-space characters of `s`.
pub open spec fn trailing_ws(s: Seq<char>) -> int
    decreases s.len(),
{
    if s.len() == 0 || !is_whitespace(s.last()) { 0 } else { 1 + trailing_ws(s.drop_last()) }
}

/// `s` without leading and trailing white space (what std's `str::trim` returns).
pub open spec fn trimmed(s: Seq<char>) -> Seq<char> {
    let a = leading_ws(s);
    if a == s.len() { Seq::empty() } else { s.subrange(a, s.len() - trailing_ws(s)) }
}

proof fn lemma_leading_ws(s: Seq<char>, i: int)
    requires
        0 <= i <= s.len(),
        forall|j: int| 0 <= j < i ==> is_whitespace(#[trigger] s[j]),
        i == s.len() || !is_whitespace(s[i]),
    ensures
        leading_ws(s) == i,
    decreases i,
{
    if i > 0 {
        lemma_leading_ws(s.drop_first(), i - 1);
    }
}

proof fn lemma_trailing_ws(s: Seq<char>, i: int)
    requires
        0 <= i <= s.len(),
        forall|j: int| s.len() - i <= j < s.len() ==> is_whitespace(#[trigger] s[j]),
        i == s.len() || !is_whitespace(s[s.len() - 1 - i]),
    ensures
        trailing_ws(s) == i,
    decreases i,
{
    if i > 0 {
        lemma_trailing_ws(s.drop_last(), i - 1);
    }
}

/// The characters of `s` from `lo` (inclusive) to `hi` (exclusive).
pub fn slice_chars(s: &Vec<char>, lo: usize, hi: usize) -> (r: Vec<char>)
    requires
        lo <= hi <= s.len(),
    ensures
        r@ == s@.subrange(lo as int, hi as int),
{
    let mut r: Vec<char> = Vec::new();
    let mut i = lo;
    while i < hi
        invariant
            lo <= i <= hi <= s.len(),
            r@ == s@.subrange(lo as int, i as int),
        decreases hi - i,
    {
        r.push(s[i]);
        assert(s@.subrange(lo as int, i + 1) == s@.subrange(lo as int, i as int).push(s@[i as int]));
        i += 1;
    }
    r
}

/// `s` without leading and trailing white space (std `str::trim`).
pub fn trim_chars(s: &Vec<char>) -> (r: Vec<char>)
    ensures
        r@ == trimmed(s@),
{
    let mut a: usize = 0;
    while a < s.len() && char_is_whitespace(s[a])
        invariant
            a <= s.len(),
            forall|j: int| 0 <= j < a ==> is_whitespace(#[trigger] s@[j]),
        decreases s.len() - a,
    {
        a += 1;
    }
    proof {
        lemma_leading_ws(s@, a as int);
    }
    if a == s.len() {
        return Vec::new();
    }
    let mut b: usize = s.len();
    while b > a && char_is_whitespace(s[b - 1])
        invariant
            a < s.len(),
            !is_whitespace(s@[a as int]),
            a <= b <= s.len(),
            forall|j: int| b <= j < s.len() ==> is_whitespace(#[trigger] s@[j]),
        decreases b,
    {
        b -= 1;
    }
    proof {
        lemma_trailing_ws(s@, s.len() - b);
    }
    slice_chars(s, a, b)
}

/// `s` without leading and trailing white space (std `str::trim`).
pub fn trim(s: &str) -> (r: String)
    ensures
        r@ == trimmed(s@),
{
    string_from_chars(&trim_chars(&chars_of(s)))
}


/// Number of leading characters of `s` that are not white space.
pub open spec fn leading_non_ws(s: Seq<char>) -> int
    decreases s.len(),
{
    if s.len() == 0 || is_whitespace(s[0]) { 0 } else { 1 + leading_non_ws(s.drop_first()) }
}

proof fn lemma_leading_non_ws_bounds(s: Seq<char>)
    ensures
        0 <= leading_non_ws(s) <= s.len(),
    decreases s.len(),
{
    if s.len() > 0 && !is_whitespace(s[0]) {
        lemma_leading_non_ws_bounds(s.drop_first());
    }
}

proof fn lemma_leading_ws_bounds(s: Seq<char>)
    ensures
        0 <= leading_ws(s) <= s.len(),
    decreases s.len(),
{
    if s.len() > 0 && is_whitespace(s[0]) {
        lemma_leading_ws_bounds(s.drop_first());
    }
}

/// The white-space separated words of `s`, in order (what std's `str::split_whitespace` yields).
pub open spec fn words(s: Seq<char>) -> Seq<Seq<char>>
    decreases s.len(),
{
    let a = leading_ws(s);
    if a <= 0 || a > s.len() {
        if s.len() == 0 {
            Seq::empty()
        } else {
            let k = leading_non_ws(s);
            if 0 < k <= s.len() {
                seq![s.subrange(0, k)] + words(s.subrange(k, s.len() as int))
            } else {
                Seq::empty()
            }
        }
    } else {
        words(s.subrange(a, s.len() as int))
    }
}

/// The items of `parts` separated by `sep`.
pub open spec fn join_with(parts: Seq<Seq<char>>, sep: Seq<char>) -> Seq<char>
    decreases parts.len(),
{
    if parts.len() == 0 {
        Seq::empty()
    } else if parts.len() == 1 {
        parts[0]
    } else {
        parts[0] + sep + join_with(parts.drop_first(), sep)
    }
}

proof fn lemma_join_push(parts: Seq<Seq<char>>, x: Seq<char>, sep: Seq<char>)
    requires
        parts.len() > 0,
    ensures
        join_with(parts.push(x), sep) == join_with(parts, sep) + sep + x,
    decreases parts.len(),
{
    if parts.len() == 1 {
        assert(parts.push(x).drop_first() =~= seq![x]);
        assert(join_with(seq![x], sep) == x);
    } else {
        lemma_join_push(parts.drop_first(), x, sep);
        assert(parts.push(x).drop_first() =~= parts.drop_first().push(x));
    }
}

/// The texts of a list of strings.
pub open spec fn string_views(parts: Seq<String>) -> Seq<Seq<char>> {
    parts.map_values(|p: String| p@)
}

/// The strings joined, with `sep` between consecutive ones.
pub fn join_strings(parts: &[String], sep: &str) -> (r: String)
    ensures
        r@ == join_with(string_views(parts@), sep@),
{
    if parts.len() == 0 {
        return String::new();
    }
    let mut out = parts[0].clone();
    let mut i: usize = 1;
    proof {
        assert(string_views(parts@.take(1)) =~= seq![parts@[0]@]);
    }
    while i < parts.len()
        invariant
            1 <= i <= parts.len(),
            out@ == join_with(string_views(parts@.take(i as int)), sep@),
        decreases parts.len() - i,
    {
        proof {
            lemma_join_push(string_views(parts@.take(i as int)), parts@[i as int]@, sep@);
            assert(string_views(parts@.take(i as int + 1)) =~= string_views(parts@.take(i as int)).push(parts@[i as int]@));
        }
        let with_sep = concat(out.as_str(), sep);
        out = concat(with_sep.as_str(), parts[i].as_str());
        i += 1;
    }
    assert(parts@.take(parts.len() as int) == parts@);
    out
}

/// The words of `s` joined by single spaces.
pub open spec fn collapse_spaces(s: Seq<char>) -> Seq<char> {
    join_with(words(s), seq![' '])
}

/// The words of `s` joined by single spaces (`split_whitespace`, then `join(" ")`).
pub fn collapse_whitespace(s: &Vec<char>) -> (r: Vec<char>)
    ensures
        r@ == collapse_spaces(s@),
{
    let mut out: Vec<char> = Vec::new();
    let mut i: usize = 0;
    let mut first = true;
    assert(s@.subrange(0, s@.len() as int) =~= s@);
    while i < s.len()
        invariant
            i <= s.len(),
            first ==> out@.len() == 0,
            first ==> collapse_spaces(s@) == join_with(words(s@.subrange(i as int, s@.len() as int)), seq![' ']),
            !first ==> (words(s@.subrange(i as int, s@.len() as int)).len() == 0 ==> collapse_spaces(s@) == out@),
            !first ==> (words(s@.subrange(i as int, s@.len() as int)).len() > 0 ==> collapse_spaces(s@) == out@ + seq![' '] + join_with(words(s@.subrange(i as int, s@.len() as int)), seq![' '])),
        decreases s.len() - i,
    {
        let ghost rest = s@.subrange(i as int, s@.len() as int);
        if char_is_whitespace(s[i]) {
            proof {
                lemma_words_skip_ws(rest);
                assert(rest.subrange(1, rest.len() as int) =~= s@.subrange(i + 1, s@.len() as int));
            }
            i += 1;
        } else {
            let start = i;
            while i < s.len() && !char_is_whitespace(s[i])
                invariant
                    start <= i <= s.len(),
                    forall|j: int| start <= j < i ==> !is_whitespace(#[trigger] s@[j]),
                decreases s.len() - i,
            {
                i += 1;
            }
            proof {
                lemma_word_at_front(rest, (i - start) as int);
                assert(rest.subrange(0, (i - start) as int) =~= s@.subrange(start as int, i as int));
                assert(rest.subrange((i - start) as int, rest.len() as int) =~= s@.subrange(i as int, s@.len() as int));
            }
            let ghost before = out@;
            if !first {
                out.push(' ');
            }
            let mut w = slice_chars(s, start, i);
            out.append(&mut w);
            proof {
                let rest2 = s@.subrange(i as int, s@.len() as int);
                let wd = s@.subrange(start as int, i as int);
                assert(words(rest) == seq![wd] + words(rest2));
                let ws = words(rest);
                assert(ws.drop_first() =~= words(rest2));
                if words(rest2).len() == 0 {
                    assert(join_with(ws, seq![' ']) == wd);
                } else {
                    assert(join_with(ws, seq![' ']) == wd + seq![' '] + join_with(words(rest2), seq![' ']));
                }
                if first {
                    assert(out@ =~= wd);
                } else {
                    assert(out@ =~= before + seq![' '] + wd);
                }
            }
            first = false;
        }
    }
    proof {
        assert(s@.subrange(s@.len() as int, s@.len() as int) =~= Seq::<char>::empty());
        assert(words(Seq::<char>::empty()) =~= Seq::<Seq<char>>::empty());
    }
    out
}

proof fn lemma_words_skip_ws(s: Seq<char>)
    requires
        s.len() > 0,
        is_whitespace(s[0]),
    ensures
        words(s) == words(s.subrange(1, s.len() as int)),
    decreases s.len(),
{
    lemma_leading_ws_bounds(s);
    let t = s.subrange(1, s.len() as int);
    assert(t =~= s.drop_first());
    lemma_leading_ws_bounds(t);
    let a = leading_ws(s);
    assert(a == 1 + leading_ws(t));
    if leading_ws(t) == 0 {
        assert(s.subrange(a, s.len() as int) =~= t);
    } else {
        assert(t.subrange(leading_ws(t), t.len() as int) =~= s.subrange(a, s.len() as int));
    }
}

proof fn lemma_word_at_front(s: Seq<char>, k: int)
    requires
        0 < k <= s.len(),
        forall|j: int| 0 <= j < k ==> !is_whitespace(#[trigger] s[j]),
        k == s.len() || is_whitespace(s[k]),
    ensures
        words(s) == seq![s.subrange(0, k)] + words(s.subrange(k, s.len() as int)),
{
    assert(leading_ws(s) == 0);
    lemma_leading_non_ws_exact(s, k);
}

proof fn lemma_leading_non_ws_exact(s: Seq<char>, k: int)
    requires
        0 <= k <= s.len(),
        forall|j: int| 0 <= j < k ==> !is_whitespace(#[trigger] s[j]),
        k == s.len() || is_whitespace(s[k]),
    ensures
        leading_non_ws(s) == k,
    decreases k,
{
    if k > 0 {
        let t = s.drop_first();
        assert forall|j: int| 0 <= j < k - 1 implies !is_whitespace(#[trigger] t[j]) by {
            assert(t[j] == s[j + 1]);
        }
        if k < s.len() {
            assert(t[k - 1] == s[k]);
        }
        lemma_leading_non_ws_exact(t, k - 1);
    }
}

/// Whether a character is alphabetic or numeric, as std's `char::is_alphanumeric` decides.
pub uninterp spec fn is_alphanumeric(c: char) -> bool;

/// Whether a character is alphanumeric (std `char::is_alphanumeric`).
#[verifier::external_body]
pub(crate) fn char_is_alphanumeric(c: char) -> (r: bool)
    ensures
        r == is_alphanumeric(c),
{
    c.is_alphanumeric()
}

/// `s` without its leading `c` characters.
pub open spec fn without_leading(s: Seq<char>, c: char) -> Seq<char>
    decreases s.len(),
{
    if s.len() > 0 && s[0] == c { without_leading(s.drop_first(), c) } else { s }
}

/// `s` without its trailing `c` characters.
pub open spec fn without_trailing(s: Seq<char>, c: char) -> Seq<char>
    decreases s.len(),
{
    if s.len() > 0 && s.last() == c { without_trailing(s.drop_last(), c) } else { s }
}

/// `s` without the `c` characters at either end (std `str::trim_matches` with a character).
pub open spec fn trim_matches_char(s: Seq<char>, c: char) -> Seq<char> {
    without_trailing(without_leading(s, c), c)
}

/// `s` without the `c` characters at either end (see [`trim_matches_char`]).
pub fn trim_char(s: &str, c: char) -> (r: String)
    ensures
        r@ == trim_matches_char(s@, c),
{
    let chars = chars_of(s);
    let mut start: usize = 0;
    assert(chars@.subrange(0, chars@.len() as int) == chars@);
    while start < chars.len() && chars[start] == c
        invariant
            start <= chars@.len(),
            without_leading(chars@.subrange(start as int, chars@.len() as int), c) == without_leading(chars@, c),
        decreases chars.len() - start,
    {
        assert(chars@.subrange(start as int, chars@.len() as int).drop_first() =~= chars@.subrange(
            start as int + 1,
            chars@.len() as int,
        ));
        start += 1;
    }
    let ghost lead = chars@.subrange(start as int, chars@.len() as int);
    assert(without_leading(lead, c) == lead);
    let mut end: usize = chars.len();
    assert(lead.subrange(0, lead.len() as int) == lead);
    while end > start && chars[end - 1] == c
        invariant
            start <= end <= chars@.len(),
            lead == chars@.subrange(start as int, chars@.len() as int),
            without_trailing(chars@.subrange(start as int, end as int), c) == without_trailing(lead, c),
        decreases end - start,
    {
        assert(chars@.subrange(start as int, end as int).drop_last() =~= chars@.subrange(start as int, end - 1));
        end -= 1;
    }
    let kept = slice_chars(&chars, start, end);
    assert(without_trailing(chars@.subrange(start as int, end as int), c) == chars@.subrange(start as int, end as int));
    string_from_chars(&kept)
}

/// The pieces of `s` between line feeds, in order (one more than the number of line feeds).
pub open spec fn split_lines(s: Seq<char>) -> Seq<Seq<char>>
    decreases s.len(),
{
    if s.len() == 0 {
        seq![Seq::empty()]
    } else {
        let p = split_lines(s.drop_last());
        if s.last() == '\n' { p.push(Seq::empty()) } else { p.update(p.len() - 1, p.last().push(s.last())) }
    }
}

/// A text has at least one piece between line feeds.
pub proof fn lemma_split_lines_nonempty(s: Seq<char>)
    ensures
        split_lines(s).len() >= 1,
    decreases s.len(),
{
    if s.len() > 0 {
        lemma_split_lines_nonempty(s.drop_last());
    }
}

/// The pieces of a text between line feeds (see [`split_lines`]).
pub fn lines_of(s: &str) -> (r: Vec<String>)
    ensures
        string_views(r@) == split_lines(s@),
{
    let chars = chars_of(s);
    let mut done: Vec<String> = Vec::new();
    let mut cur: Vec<char> = Vec::new();
    let mut i: usize = 0;
    while i < chars.len()
        invariant
            i <= chars@.len(),
            chars@ == s@,
            string_views(done@).push(cur@) == split_lines(chars@.take(i as int)),
        decreases chars.len() - i,
    {
        let ch = chars[i];
        proof {
            assert(chars@.take(i as int + 1).drop_last() == chars@.take(i as int));
            lemma_split_lines_nonempty(chars@.take(i as int));
        }
        let ghost before_done = string_views(done@);
        let ghost before_cur = cur@;
        if ch == '\n' {
            let piece = string_from_chars(&cur);
            done.push(piece);
            cur = Vec::new();
            proof {
                assert(string_views(done@) =~= before_done.push(before_cur));
                assert(string_views(done@).push(cur@) =~= before_done.push(before_cur).push(Seq::empty()));
            }
        } else {
            cur.push(ch);
            proof {
                assert(before_done.push(before_cur).update(before_done.len() as int, before_cur.push(ch)) =~= before_done.push(cur@));
            }
        }
        i += 1;
    }
    assert(chars@.take(chars@.len() as int) == chars@);
    let last = string_from_chars(&cur);
    let ghost before_done = string_views(done@);
    done.push(last);
    assert(string_views(done@) =~= before_done.push(cur@));
    done
}

/// A line without the carriage return that ends it, if any.
pub open spec fn strip_cr(l: Seq<char>) -> Seq<char> {
    if l.len() > 0 && l.last() == '\r' { l.drop_last() } else { l }
}

/// The lines of a text as std's `str::lines` yields them: the pieces between line feeds, each
/// line that ends with a line feed without a carriage return before it, and no empty piece
/// after a final line feed.
pub open spec fn text_lines(s: Seq<char>) -> Seq<Seq<char>> {
    let p = split_lines(s);
    let body = p.drop_last().map_values(|l: Seq<char>| strip_cr(l));
    if p.len() > 0 && p.last().len() > 0 { body.push(p.last()) } else { body }
}

/// The lines of a text (see [`text_lines`]).
pub fn std_lines(s: &str) -> (r: Vec<String>)
    ensures
        string_views(r@) == text_lines(s@),
{
    let pieces = lines_of(s);
    let ghost ps = string_views(pieces@);
    proof {
        lemma_split_lines_nonempty(s@);
    }
    let n = pieces.len();
    let mut out: Vec<String> = Vec::new();
    let mut i: usize = 0;
    while i + 1 < n
        invariant
            n == pieces@.len(),
            n >= 1,
            i + 1 <= n,
            ps == string_views(pieces@),
            ps == split_lines(s@),
            string_views(out@) == ps.take(i as int).map_values(|l: Seq<char>| strip_cr(l)),
        decreases n - i,
    {
        let chars = chars_of(pieces[i].as_str());
        let line = if chars.len() > 0 && chars[chars.len() - 1] == '\r' {
            string_from_chars(&slice_chars(&chars, 0, chars.len() - 1))
        } else {
            pieces[i].clone()
        };
        proof {
            if chars@.len() > 0 && chars@.last() == '\r' {
                assert(chars@.subrange(0, chars@.len() - 1) =~= chars@.drop_last());
            }
        }
        let ghost before = string_views(out@);
        out.push(line);
        proof {
            assert(string_views(out@) =~= before.push(strip_cr(ps[i as int])));
            assert(ps.take(i as int + 1).map_values(|l: Seq<char>| strip_cr(l)) =~= ps.take(i as int).map_values(
                |l: Seq<char>| strip_cr(l),
            ).push(strip_cr(ps[i as int])));
        }
        i += 1;
    }
    assert(ps.take(n - 1) == ps.drop_last());
    if !pieces[n - 1].as_str().is_empty() {
        let ghost before = string_views(out@);
        out.push(pieces[n - 1].clone());
        assert(string_views(out@) =~= before.push(ps.last()));
    }
    out
}

/// `s` without its trailing `c` characters (std `str::trim_end_matches` with a character).
pub fn trim_end_char(s: &str, c: char) -> (r: String)
    ensures
        r@ == without_trailing(s@, c),
{
    let chars = chars_of(s);
    let mut end: usize = chars.len();
    assert(chars@.subrange(0, chars@.len() as int) == chars@);
    while end > 0 && chars[end - 1] == c
        invariant
            end <= chars@.len(),
            without_trailing(chars@.subrange(0, end as int), c) == without_trailing(chars@, c),
        decreases end,
    {
        assert(chars@.subrange(0, end as int).drop_last() =~= chars@.subrange(0, end - 1));
        end -= 1;
    }
    let kept = slice_chars(&chars, 0, end);
    assert(without_trailing(chars@.subrange(0, end as int), c) == chars@.subrange(0, end as int));
    string_from_chars(&kept)
}

/// The white-space separated words of a text (std `str::split_whitespace`).
pub fn split_words(text: &str) -> (r: Vec<String>)
    ensures
        string_views(r@) == words(text@),
{
    let s = chars_of(text);
    let mut out: Vec<String> = Vec::new();
    let mut i: usize = 0;
    assert(s@.subrange(0, s@.len() as int) =~= s@);
    while i < s.len()
        invariant
            i <= s.len(),
            s@ == text@,
            words(s@) == string_views(out@) + words(s@.subrange(i as int, s@.len() as int)),
        decreases s.len() - i,
    {
        let ghost rest = s@.subrange(i as int, s@.len() as int);
        if char_is_whitespace(s[i]) {
            proof {
                lemma_words_skip_ws(rest);
                assert(rest.subrange(1, rest.len() as int) =~= s@.subrange(i + 1, s@.len() as int));
            }
            i += 1;
        } else {
            let start = i;
            while i < s.len() && !char_is_whitespace(s[i])
                invariant
                    start <= i <= s.len(),
                    forall|j: int| start <= j < i ==> !is_whitespace(#[trigger] s@[j]),
                decreases s.len() - i,
            {
                i += 1;
            }
            proof {
                lemma_word_at_front(rest, (i - start) as int);
                assert(rest.subrange(0, (i - start) as int) =~= s@.subrange(start as int, i as int));
                assert(rest.subrange((i - start) as int, rest.len() as int) =~= s@.subrange(i as int, s@.len() as int));
            }
            let ghost before = string_views(out@);
            let w = string_from_chars(&slice_chars(&s, start, i));
            out.push(w);
            proof {
                let rest2 = s@.subrange(i as int, s@.len() as int);
                let wd = s@.subrange(start as int, i as int);
                assert(words(rest) == seq![wd] + words(rest2));
                assert(string_views(out@) =~= before.push(wd));
                assert(before + words(rest) =~= string_views(out@) + words(rest2));
            }
        }
    }
    proof {
        assert(s@.subrange(s@.len() as int, s@.len() as int) =~= Seq::<char>::empty());
        assert(words(Seq::<char>::empty()) =~= Seq::<Seq<char>>::empty());
        assert(string_views(out@) + Seq::<Seq<char>>::empty() =~= string_views(out@));
    }
    out
}

} // verus!
