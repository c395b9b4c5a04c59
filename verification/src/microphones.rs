//! Choosing the recording daemon's microphone: the input sources that `pactl` lists, and the
//! `RECORDING_MICROPHONE` setting of the daemon's systemd unit.
use vstd::prelude::*;
use crate::text::{contains_seq, join_with, string_views, text_lines, trimmed, without_trailing, words};

verus! {

broadcast use vstd::string::group_string_axioms;

/// The setting's name as it appears in the unit.
pub open spec fn setting() -> Seq<char> {
    "RECORDING_MICROPHONE="@
}

/// Whether a unit line sets the microphone.
pub open spec fn sets_microphone(line: Seq<char>) -> bool {
    contains_seq(line, setting())
}

/// The unit line that sets the microphone.
pub open spec fn microphone_line(mic: Seq<char>) -> Seq<char> {
    "Environment=\"RECORDING_MICROPHONE="@ + mic + "\""@
}

/// The unit's lines with every microphone line replaced by the line for `mic`.
pub open spec fn replaced_lines(lines: Seq<Seq<char>>, mic: Seq<char>) -> Seq<Seq<char>> {
    lines.map_values(|l: Seq<char>| if sets_microphone(l) { microphone_line(mic) } else { l })
}

/// The unit's lines with the line for `mic` inserted after the first `[Service]` line (compared
/// without surrounding white space); `None` when there is none.
pub open spec fn inserted_lines(lines: Seq<Seq<char>>, mic: Seq<char>) -> Option<Seq<Seq<char>>>
    decreases lines.len(),
{
    if lines.len() == 0 {
        None
    } else if trimmed(lines[0]) == "[Service]"@ {
        Some(seq![lines[0], microphone_line(mic)] + lines.drop_first())
    } else {
        match inserted_lines(lines.drop_first(), mic) {
            Some(rest) => Some(seq![lines[0]] + rest),
            None => None,
        }
    }
}

/// The unit's content with the microphone set to `mic`: each line that sets the microphone
/// replaced when there is one, otherwise the setting added after the `[Service]` line (an error
/// when there is none); the lines joined by line feeds, with a final line feed.
pub open spec fn updated_unit(content: Seq<char>, mic: Seq<char>) -> Result<Seq<char>, Seq<char>> {
    let lines = text_lines(content);
    if exists|i: int| 0 <= i < lines.len() && sets_microphone(#[trigger] lines[i]) {
        Ok(join_with(replaced_lines(lines, mic), "\n"@) + "\n"@)
    } else {
        match inserted_lines(lines, mic) {
            Some(ls) => Ok(join_with(ls, "\n"@) + "\n"@),
            None => Err("Could not find [Service] section in service file"@),
        }
    }
}

/// The line that sets the microphone.
fn microphone_setting(mic: &str) -> (r: String)
    ensures
        r@ == microphone_line(mic@),
{
    let a = crate::text::concat("Environment=\"RECORDING_MICROPHONE=", mic);
    crate::text::concat(a.as_str(), "\"")
}

/// The unit's content with the microphone set (see [`updated_unit`]).
pub fn update_service_content(content: &str, microphone: &str) -> (r: Result<String, String>)
    ensures
        match updated_unit(content@, microphone@) {
            Ok(c) => r matches Ok(s) && s@ == c,
            Err(e) => r matches Err(s) && s@ == e,
        },
{
    let lines = crate::text::std_lines(content);
    let ghost ls = string_views(lines@);
    let mut replaced: Vec<String> = Vec::new();
    let mut found = false;
    let mut i: usize = 0;
    while i < lines.len()
        invariant
            i <= lines@.len(),
            ls == string_views(lines@),
            ls == text_lines(content@),
            string_views(replaced@) == replaced_lines(ls.take(i as int), microphone@),
            found == exists|j: int| 0 <= j < i && sets_microphone(#[trigger] ls[j]),
        decreases lines.len() - i,
    {
        let ghost before = string_views(replaced@);
        if crate::text::str_contains(lines[i].as_str(), "RECORDING_MICROPHONE=") {
            replaced.push(microphone_setting(microphone));
            found = true;
        } else {
            replaced.push(lines[i].clone());
        }
        proof {
            assert(string_views(replaced@) =~= before.push(
                if sets_microphone(ls[i as int]) { microphone_line(microphone@) } else { ls[i as int] },
            ));
            assert(replaced_lines(ls.take(i as int + 1), microphone@) =~= replaced_lines(ls.take(i as int), microphone@).push(
                if sets_microphone(ls[i as int]) { microphone_line(microphone@) } else { ls[i as int] },
            ));
        }
        i += 1;
    }
    assert(ls.take(lines@.len() as int) == ls);
    if found {
        let joined = crate::text::join_strings(&replaced, "\n");
        return Ok(crate::text::concat(joined.as_str(), "\n"));
    }
    assert(!exists|a: int| 0 <= a < ls.len() && sets_microphone(#[trigger] ls[a]));
    let mut out: Vec<String> = Vec::new();
    let mut j: usize = 0;
    while j < lines.len()
        invariant
            j <= lines@.len(),
            ls == string_views(lines@),
            ls == text_lines(content@),
            !exists|a: int| 0 <= a < ls.len() && sets_microphone(#[trigger] ls[a]),
            string_views(out@) == ls.take(j as int),
            forall|a: int| 0 <= a < j ==> trimmed(#[trigger] ls[a]) != "[Service]"@,
        decreases lines.len() - j,
    {
        let t = crate::text::trim(lines[j].as_str());
        if crate::text::str_eq(t.as_str(), "[Service]") {
            let ghost before = string_views(out@);
            out.push(lines[j].clone());
            let ghost mid = string_views(out@);
            assert(mid =~= before.push(ls[j as int]));
            let setting_line = microphone_setting(microphone);
            out.push(setting_line);
            let mut k: usize = j + 1;
            proof {
                lemma_inserted_at(ls, microphone@, j as int);
                assert(string_views(out@) =~= mid.push(microphone_line(microphone@)));
                assert(ls.take(j as int + 1) =~= ls.take(j as int).push(ls[j as int]));
                assert(string_views(out@) =~= ls.take(j as int + 1).push(microphone_line(microphone@)));
                assert(ls.subrange(j as int + 1, j as int + 1) =~= Seq::<Seq<char>>::empty());
            }
            while k < lines.len()
                invariant
                    j < k <= lines@.len(),
                    ls == string_views(lines@),
                    ls == text_lines(content@),
                    !exists|a: int| 0 <= a < ls.len() && sets_microphone(#[trigger] ls[a]),
                    inserted_lines(ls, microphone@) == Some(ls.take(j as int + 1).push(microphone_line(microphone@)) + ls.subrange(j as int + 1, ls.len() as int)),
                    string_views(out@) == ls.take(j as int + 1).push(microphone_line(microphone@)) + ls.subrange(
                        j as int + 1,
                        k as int,
                    ),
                decreases lines.len() - k,
            {
                let ghost b2 = string_views(out@);
                out.push(lines[k].clone());
                proof {
                    assert(string_views(out@) =~= b2.push(ls[k as int]));
                    assert(ls.subrange(j as int + 1, k + 1) =~= ls.subrange(j as int + 1, k as int).push(ls[k as int]));
                }
                k += 1;
            }
            proof {
                assert(ls.take(j as int + 1).push(microphone_line(microphone@)) + ls.subrange(j as int + 1, ls.len() as int)
                    =~= inserted_lines(ls, microphone@).unwrap());
            }
            let joined = crate::text::join_strings(&out, "\n");
            return Ok(crate::text::concat(joined.as_str(), "\n"));
        }
        let ghost before = string_views(out@);
        out.push(lines[j].clone());
        proof {
            assert(string_views(out@) =~= before.push(ls[j as int]));
            assert(ls.take(j as int + 1) =~= ls.take(j as int).push(ls[j as int]));
        }
        j += 1;
    }
    proof {
        lemma_not_inserted(ls, microphone@);
    }
    Err("Could not find [Service] section in service file".to_string())
}

/// Inserting after the first `[Service]` line, found at `j`.
proof fn lemma_inserted_at(lines: Seq<Seq<char>>, mic: Seq<char>, j: int)
    requires
        0 <= j < lines.len(),
        trimmed(lines[j]) == "[Service]"@,
        forall|a: int| 0 <= a < j ==> trimmed(#[trigger] lines[a]) != "[Service]"@,
    ensures
        inserted_lines(lines, mic) == Some(lines.take(j + 1).push(microphone_line(mic)) + lines.subrange(j + 1, lines.len() as int)),
    decreases j,
{
    if j == 0 {
        assert(seq![lines[0], microphone_line(mic)] + lines.drop_first() =~= lines.take(1).push(microphone_line(mic))
            + lines.subrange(1, lines.len() as int));
    } else {
        let rest = lines.drop_first();
        assert forall|a: int| 0 <= a < j - 1 implies trimmed(#[trigger] rest[a]) != "[Service]"@ by {
            assert(rest[a] == lines[a + 1]);
        }
        assert(trimmed(rest[j - 1]) == "[Service]"@);
        lemma_inserted_at(rest, mic, j - 1);
        assert(seq![lines[0]] + (rest.take(j).push(microphone_line(mic)) + rest.subrange(j, rest.len() as int))
            =~= lines.take(j + 1).push(microphone_line(mic)) + lines.subrange(j + 1, lines.len() as int));
    }
}

/// Without a `[Service]` line, nothing is inserted.
proof fn lemma_not_inserted(lines: Seq<Seq<char>>, mic: Seq<char>)
    requires
        forall|a: int| 0 <= a < lines.len() ==> trimmed(#[trigger] lines[a]) != "[Service]"@,
    ensures
        inserted_lines(lines, mic) is None,
    decreases lines.len(),
{
    if lines.len() > 0 {
        let rest = lines.drop_first();
        assert forall|a: int| 0 <= a < rest.len() implies trimmed(#[trigger] rest[a]) != "[Service]"@ by {
            assert(rest[a] == lines[a + 1]);
        }
        assert(trimmed(lines[0]) != "[Service]"@);
        lemma_not_inserted(rest, mic);
    }
}

/// The first position at or after `i` where `p` occurs in `s`, if any.
pub open spec fn find_from(s: Seq<char>, p: Seq<char>, i: int) -> Option<int>
    decreases s.len() - i,
{
    if i < 0 || i > s.len() {
        None
    } else if crate::text::occurs_at(s, p, i) {
        Some(i)
    } else if i == s.len() {
        None
    } else {
        find_from(s, p, i + 1)
    }
}

/// The value the first microphone line of a unit sets: what follows the first
/// `RECORDING_MICROPHONE=` on it, without trailing quotes.
pub open spec fn configured_microphone(lines: Seq<Seq<char>>) -> Option<Seq<char>>
    decreases lines.len(),
{
    if lines.len() == 0 {
        None
    } else {
        match find_from(lines[0], setting(), 0) {
            Some(k) => Some(without_trailing(lines[0].subrange(k + setting().len(), lines[0].len() as int), '"')),
            None => configured_microphone(lines.drop_first()),
        }
    }
}

proof fn lemma_find_from_some(s: Seq<char>, p: Seq<char>, i: int)
    ensures
        find_from(s, p, i) matches Some(k) ==> i <= k && crate::text::occurs_at(s, p, k),
    decreases s.len() - i,
{
    if 0 <= i < s.len() && !crate::text::occurs_at(s, p, i) {
        lemma_find_from_some(s, p, i + 1);
    }
}

/// The first occurrence of `p` in `s` (see [`find_from`]).
fn find_first(s: &Vec<char>, p: &Vec<char>) -> (r: Option<usize>)
    ensures
        match r {
            Some(k) => find_from(s@, p@, 0) == Some(k as int),
            None => find_from(s@, p@, 0) is None,
        },
{
    let mut i: usize = 0;
    while i <= s.len()
        invariant
            i <= s@.len() + 1,
            find_from(s@, p@, 0) == find_from(s@, p@, i as int),
        decreases s@.len() + 1 - i,
    {
        if crate::text::occurs_at_exec(s, p, i) {
            return Some(i);
        }
        if i == s.len() {
            return None;
        }
        i += 1;
    }
    None
}

/// The microphone a unit's content sets, if any (see [`configured_microphone`]).
pub fn current_microphone(content: &str) -> (r: Option<String>)
    ensures
        crate::config::opt_view(r) == configured_microphone(text_lines(content@)),
{
    let lines = crate::text::std_lines(content);
    let ghost ls = string_views(lines@);
    let key = crate::text::chars_of("RECORDING_MICROPHONE=");
    let mut i: usize = 0;
    assert(ls.subrange(0, ls.len() as int) == ls);
    while i < lines.len()
        invariant
            i <= lines@.len(),
            ls == string_views(lines@),
            key@ == setting(),
            configured_microphone(text_lines(content@)) == configured_microphone(ls.subrange(i as int, ls.len() as int)),
            ls == text_lines(content@),
        decreases lines.len() - i,
    {
        let chars = crate::text::chars_of(lines[i].as_str());
        proof {
            assert(ls.subrange(i as int, ls.len() as int)[0] == ls[i as int]);
            assert(ls.subrange(i as int, ls.len() as int).drop_first() =~= ls.subrange(i as int + 1, ls.len() as int));
        }
        proof {
            lemma_find_from_some(chars@, key@, 0);
        }
        match find_first(&chars, &key) {
            Some(k) => {
                assert(crate::text::occurs_at(chars@, key@, k as int));
                let n = chars.len();
                let klen = key.len();
                assert(k + klen <= n);
                let start = k + klen;
                let after = crate::text::slice_chars(&chars, start, chars.len());
                let value = crate::text::string_from_chars(&after);
                let trimmed_value = crate::text::trim_end_char(value.as_str(), '"');
                return Some(trimmed_value);
            },
            None => {},
        }
        i += 1;
    }
    None
}

/// The input source a line of `pactl list sources short` describes: its name (second field)
/// and state (last field), for a line of at least two fields whose name is not a monitor of an
/// output.
pub open spec fn source_of_line(line: Seq<char>) -> Option<(Seq<char>, Seq<char>)> {
    let fields = words(line);
    if fields.len() >= 2 && !contains_seq(fields[1], ".monitor"@) {
        Some((fields[1], fields.last()))
    } else {
        None
    }
}

/// The input sources the lines describe, in order.
pub open spec fn sources_of(lines: Seq<Seq<char>>) -> Seq<(Seq<char>, Seq<char>)>
    decreases lines.len(),
{
    if lines.len() == 0 {
        Seq::empty()
    } else {
        let prev = sources_of(lines.drop_last());
        match source_of_line(lines.last()) {
            Some(e) => prev.push(e),
            None => prev,
        }
    }
}

/// The microphones (name and state) that `pactl list sources short` lists (see
/// [`source_of_line`]).
pub fn available_microphones(pactl_output: &str) -> (r: Vec<(String, String)>)
    ensures
        r@.map_values(|e: (String, String)| (e.0@, e.1@)) == sources_of(text_lines(pactl_output@)),
{
    let lines = crate::text::std_lines(pactl_output);
    let ghost ls = string_views(lines@);
    let mut out: Vec<(String, String)> = Vec::new();
    let mut i: usize = 0;
    while i < lines.len()
        invariant
            i <= lines@.len(),
            ls == string_views(lines@),
            out@.map_values(|e: (String, String)| (e.0@, e.1@)) == sources_of(ls.take(i as int)),
        decreases lines.len() - i,
    {
        proof {
            assert(ls.take(i as int + 1).drop_last() == ls.take(i as int));
        }
        let fields = crate::text::split_words(lines[i].as_str());
        if fields.len() >= 2 && !crate::text::str_contains(fields[1].as_str(), ".monitor") {
            let ghost before = out@.map_values(|e: (String, String)| (e.0@, e.1@));
            let name = fields[1].clone();
            let state = fields[fields.len() - 1].clone();
            out.push((name, state));
            proof {
                assert(string_views(fields@)[1] == fields@[1]@);
                assert(string_views(fields@).last() == fields@[fields@.len() - 1]@);
                assert(out@.map_values(|e: (String, String)| (e.0@, e.1@)) =~= before.push(
                    (fields@[1]@, fields@[fields@.len() - 1]@),
                ));
            }
        }
        i += 1;
    }
    assert(ls.take(lines@.len() as int) == ls);
    out
}

} // verus!
