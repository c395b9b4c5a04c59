//! Joining file-system paths given as text.
use vstd::prelude::*;

verus! {

/// The path std's `PathBuf::join` gives on Unix for a base and another path: the other path
/// when it is absolute, otherwise the two joined by `/` unless the base is empty or already
/// ends with `/`.
pub open spec fn path_join(base: Seq<char>, rel: Seq<char>) -> Seq<char> {
    if rel.len() > 0 && rel[0] == '/' {
        rel
    } else if base.len() == 0 || base.last() == '/' {
        base + rel
    } else {
        base + seq!['/'] + rel
    }
}

/// Join two paths (std `Path::join` on Unix).
pub fn join_path(base: &str, rel: &str) -> (r: String)
    ensures
        r@ == path_join(base@, rel@),
{
    let b = crate::text::chars_of(base);
    let mut r = crate::text::chars_of(rel);
    if r.len() > 0 && r[0] == '/' {
        return crate::text::string_from_chars(&r);
    }
    let mut out = b;
    if out.len() > 0 && out[out.len() - 1] != '/' {
        out.push('/');
    }
    out.append(&mut r);
    crate::text::string_from_chars(&out)
}

} // verus!
