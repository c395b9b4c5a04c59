//! Clipboard content handling: the saved clipboard and the text put into it.
use vstd::prelude::*;

verus! {

/// Saved clipboard content for restoration.
#[derive(Debug, Clone)]
pub struct SavedClipboard {
    /// The raw bytes from the clipboard (may be text or binary)
    content: Option<Vec<u8>>,
}

impl SavedClipboard {
    /// The saved bytes, if the clipboard held any.
    pub closed spec fn saved(&self) -> Option<Seq<u8>> {
        match self.content {
            Some(v) => Some(v@),
            None => None,
        }
    }

    /// Record the clipboard content read at save time (`None` when the clipboard was empty).
    pub fn from_content(content: Option<Vec<u8>>) -> (r: SavedClipboard)
        ensures
            r.saved() == match content {
                Some(v) => Some(v@),
                None => None::<Seq<u8>>,
            },
    {
        SavedClipboard { content }
    }

    /// The content to restore.
    pub fn into_content(self) -> (r: Option<Vec<u8>>)
        ensures
            self.saved() == match r {
                Some(v) => Some(v@),
                None => None::<Seq<u8>>,
            },
    {
        self.content
    }

    /// Check if there was content saved.
    pub fn has_content(&self) -> (r: bool)
        ensures
            r == self.saved() is Some,
    {
        self.content.is_some()
    }
}

/// Whether a character ends a sentence.
pub open spec fn ends_sentence(c: char) -> bool {
    c == '.' || c == '!' || c == '?'
}

/// Add a space after sentence-ending punctuation, so that consecutive dictations flow naturally.
pub fn add_trailing_space_after_punctuation(text: &str) -> (r: String)
    ensures
        r@ == if text@.len() > 0 && ends_sentence(text@.last()) { text@.push(' ') } else { text@ },
{
    let mut chars = crate::text::chars_of(text);
    let n = chars.len();
    if n > 0 && (chars[n - 1] == '.' || chars[n - 1] == '!' || chars[n - 1] == '?') {
        chars.push(' ');
    }
    crate::text::string_from_chars(&chars)
}

/// The `ydotool` arguments that paste the clipboard: Ctrl+Shift+V in a terminal, Ctrl+V
/// elsewhere (key codes 29 Left Ctrl, 42 Left Shift, 47 V; `:1` presses, `:0` releases).
pub open spec fn paste_keys(is_terminal: bool) -> Seq<Seq<char>> {
    if is_terminal {
        seq!["key"@, "29:1"@, "42:1"@, "47:1"@, "47:0"@, "42:0"@, "29:0"@]
    } else {
        seq!["key"@, "29:1"@, "47:1"@, "47:0"@, "29:0"@]
    }
}

/// The `ydotool` arguments that paste the clipboard (see [`paste_keys`]).
pub fn paste_key_args(is_terminal: bool) -> (r: Vec<String>)
    ensures
        r@.map_values(|a: String| a@) == paste_keys(is_terminal),
{
    let mut r: Vec<String> = Vec::new();
    r.push("key".to_string());
    r.push("29:1".to_string());
    if is_terminal {
        r.push("42:1".to_string());
    }
    r.push("47:1".to_string());
    r.push("47:0".to_string());
    if is_terminal {
        r.push("42:0".to_string());
    }
    r.push("29:0".to_string());
    assert(r@.map_values(|a: String| a@) =~= paste_keys(is_terminal));
    r
}

} // verus!
