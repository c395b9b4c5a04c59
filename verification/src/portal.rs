//! The hotkey daemon's side of the GlobalShortcuts portal protocol: request object paths, the
//! meaning of a request's response code, and the shortcuts registered for the bindings.
use vstd::prelude::*;
use crate::bindings::BindingMap;
use crate::numbers::{decimal, u64_to_decimal};
use crate::text::without_leading;

verus! {

broadcast use vstd::string::group_string_axioms;

/// `s` with every `from` character replaced by `to`.
pub open spec fn replace_char(s: Seq<char>, from: char, to: char) -> Seq<char> {
    s.map_values(|x: char| if x == from { to } else { x })
}

/// The sender name used in request paths, from the connection's unique bus name: leading
/// colons removed and dots replaced by underscores (`:1.234` gives `1_234`).
pub open spec fn sender_name(unique_name: Seq<char>) -> Seq<char> {
    replace_char(without_leading(unique_name, ':'), '.', '_')
}

/// The sender name of a connection's unique bus name (see [`sender_name`]).
pub fn get_sender_name(unique_name: &str) -> (r: String)
    ensures
        r@ == sender_name(unique_name@),
{
    let chars = crate::text::chars_of(unique_name);
    let mut start: usize = 0;
    assert(chars@.subrange(0, chars@.len() as int) == chars@);
    while start < chars.len() && chars[start] == ':'
        invariant
            start <= chars@.len(),
            without_leading(chars@.subrange(start as int, chars@.len() as int), ':') == without_leading(chars@, ':'),
        decreases chars.len() - start,
    {
        proof {
            assert(chars@.subrange(start as int, chars@.len() as int).drop_first() =~= chars@.subrange(
                start as int + 1,
                chars@.len() as int,
            ));
        }
        start += 1;
    }
    let ghost rest = chars@.subrange(start as int, chars@.len() as int);
    assert(without_leading(rest, ':') == rest);
    let mut out: Vec<char> = Vec::new();
    let mut i: usize = start;
    while i < chars.len()
        invariant
            start <= i <= chars@.len(),
            rest == chars@.subrange(start as int, chars@.len() as int),
            out@ == replace_char(rest.take(i - start), '.', '_'),
        decreases chars.len() - i,
    {
        let c = chars[i];
        out.push(if c == '.' { '_' } else { c });
        proof {
            assert(replace_char(rest.take(i - start + 1), '.', '_') =~= replace_char(rest.take(i - start), '.', '_').push(
                if c == '.' { '_' } else { c },
            ));
        }
        i += 1;
    }
    assert(rest.take(chars@.len() - start) == rest);
    crate::text::string_from_chars(&out)
}

/// The object path of the portal request a sender makes with a handle token.
pub open spec fn request_object_path(sender: Seq<char>, token: Seq<char>) -> Seq<char> {
    "/org/freedesktop/portal/desktop/request/"@ + sender + "/"@ + token
}

/// The object path of a portal request (see [`request_object_path`]).
pub fn request_path(sender: &str, token: &str) -> (r: String)
    ensures
        r@ == request_object_path(sender@, token@),
{
    let a = crate::text::concat("/org/freedesktop/portal/desktop/request/", sender);
    let b = crate::text::concat(a.as_str(), "/");
    crate::text::concat(b.as_str(), token)
}

/// What a portal request's response code means: success for 0, otherwise the error.
pub open spec fn response_failure(code: u32) -> Option<Seq<char>> {
    if code == 0 {
        None
    } else if code == 1 {
        Some("User cancelled"@)
    } else {
        Some("Request failed with code "@ + decimal(code as nat))
    }
}

/// The error a portal request's response code reports, if any (see [`response_failure`]).
pub fn response_error(code: u32) -> (r: Option<String>)
    ensures
        crate::config::opt_view(r) == response_failure(code),
{
    if code == 0 {
        None
    } else if code == 1 {
        Some("User cancelled".to_string())
    } else {
        let n = u64_to_decimal(code as u64);
        Some(crate::text::concat("Request failed with code ", n.as_str()))
    }
}

/// The identifier of the Enter shortcut bound during long recordings.
pub open spec fn enter_shortcut() -> Seq<char> {
    "transcribe-enter"@
}

/// The identifier of the Escape shortcut bound during long recordings.
pub open spec fn escape_shortcut() -> Seq<char> {
    "transcribe-escape"@
}

/// The description registered for a shortcut: the Enter and Escape shortcuts say what they do
/// during long recordings; a binding's shortcut names its key (empty when the identifier does
/// not have the binding prefix).
pub open spec fn description_of(id: Seq<char>) -> Seq<char> {
    if id == enter_shortcut() {
        "Enter key for submit during long recording"@
    } else if id == escape_shortcut() {
        "Escape key for cancel during long recording"@
    } else {
        "Transcribe hotkey for key "@ + if crate::text::is_prefix(crate::bindings::shortcut_prefix(), id) {
            id.subrange(crate::bindings::shortcut_prefix().len() as int, id.len() as int)
        } else {
            Seq::empty()
        }
    }
}

/// The description registered for a shortcut (see [`description_of`]).
pub fn shortcut_description(id: &str) -> (r: String)
    ensures
        r@ == description_of(id@),
{
    if crate::text::str_eq(id, "transcribe-enter") {
        "Enter key for submit during long recording".to_string()
    } else if crate::text::str_eq(id, "transcribe-escape") {
        "Escape key for cancel during long recording".to_string()
    } else {
        let key = match crate::bindings::key_from_shortcut_id(id) {
            Some(k) => k,
            None => String::new(),
        };
        proof {
            if !crate::text::is_prefix(crate::bindings::shortcut_prefix(), id@) {
                assert(key@ =~= Seq::<char>::empty());
            }
        }
        crate::text::concat("Transcribe hotkey for key ", key.as_str())
    }
}

/// The shortcuts to register: one per binding, then the Enter and Escape shortcuts.
pub fn shortcut_ids(bindings: &BindingMap) -> (r: Vec<String>)
    requires
        bindings.wf(),
    ensures
        r@.len() == bindings@.len() + 2,
        forall|i: int| 0 <= i < bindings@.len() ==> bindings@.contains_key(#[trigger] r@[i]@),
        forall|k: Seq<char>| bindings@.contains_key(k) ==> exists|i: int| 0 <= i < bindings@.len() && #[trigger] r@[i]@ == k,
        r@[r@.len() - 2]@ == enter_shortcut(),
        r@[r@.len() - 1]@ == escape_shortcut(),
{
    let mut ids = bindings.keys();
    let ghost keys = ids@;
    ids.push("transcribe-enter".to_string());
    ids.push("transcribe-escape".to_string());
    proof {
        assert forall|k: Seq<char>| bindings@.contains_key(k) implies exists|i: int|
            0 <= i < bindings@.len() && #[trigger] ids@[i]@ == k by {
            let i = choose|i: int| 0 <= i < keys.len() && #[trigger] keys[i]@ == k;
            assert(ids@[i] == keys[i]);
        }
    }
    ids
}

} // verus!
