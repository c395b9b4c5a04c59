//! Deciding whether the active window is a terminal, from its window class.
use vstd::prelude::*;
use crate::text::contains_seq;

verus! {

/// Window-class fragments that identify terminal applications.
pub open spec fn terminal_apps() -> Seq<Seq<char>> {
    seq![
        "alacritty"@, "kitty"@, "wezterm"@, "foot"@, "terminal"@, "konsole"@,
        "terminator"@, "xterm"@, "urxvt"@, "st"@, "code"@,
    ]
}

/// How long a terminal detection result stays valid, in milliseconds.
pub const CACHE_DURATION_MS: u64 = 2000;

/// Whether a window class names a terminal: some terminal name occurs in it.
pub fn is_terminal_class(class: &str) -> (r: bool)
    ensures
        r == exists|i: int| 0 <= i < terminal_apps().len() && contains_seq(class@, #[trigger] terminal_apps()[i]),
{
    let apps: [&str; 11] = [
        "alacritty", "kitty", "wezterm", "foot", "terminal", "konsole",
        "terminator", "xterm", "urxvt", "st", "code",
    ];
    proof {
        assert(apps@.map_values(|a: &str| a@) =~= terminal_apps());
    }
    let mut i: usize = 0;
    while i < 11
        invariant
            i <= 11,
            apps@.map_values(|a: &str| a@) == terminal_apps(),
            forall|j: int| 0 <= j < i ==> !contains_seq(class@, #[trigger] terminal_apps()[j]),
        decreases 11 - i,
    {
        let app = apps[i];
        assert(app@ == terminal_apps()[i as int]);
        if crate::text::str_contains(class, app) {
            return true;
        }
        i += 1;
    }
    false
}

/// Uncached terminal decision: a detected window class that names a terminal; `false` when the
/// class could not be detected.
pub fn is_active_window_terminal_uncached(class: Option<&str>) -> (r: bool)
    ensures
        r == match class {
            Some(c) => exists|i: int| 0 <= i < terminal_apps().len() && contains_seq(c@, #[trigger] terminal_apps()[i]),
            None => false,
        },
{
    match class {
        Some(c) => is_terminal_class(c),
        None => false,
    }
}

/// The cached detection result, if it was taken less than the cache duration before `now`
/// (times in milliseconds).
pub fn cached_terminal_result(cache: Option<(u64, bool)>, now: u64) -> (r: Option<bool>)
    ensures
        r == match cache {
            Some((t, b)) => if now >= t && now - t < CACHE_DURATION_MS || now < t { Some(b) } else { None },
            None => None,
        },
{
    match cache {
        Some((t, b)) => {
            let elapsed = if now >= t { now - t } else { 0 };
            if elapsed < CACHE_DURATION_MS { Some(b) } else { None }
        },
        None => None,
    }
}

/// Whether a detected window class names a terminal (`false` when none was detected).
pub open spec fn names_terminal(class: Option<Seq<char>>) -> bool {
    match class {
        Some(c) => exists|i: int| 0 <= i < terminal_apps().len() && contains_seq(c, #[trigger] terminal_apps()[i]),
        None => false,
    }
}

/// The last terminal detection: when it was made (milliseconds) and its result.
pub struct TerminalCache {
    entry: Option<(u64, bool)>,
}

impl TerminalCache {
    /// The cached detection, if any.
    pub closed spec fn last(&self) -> Option<(u64, bool)> {
        self.entry
    }

    /// No detection cached.
    pub fn new() -> (c: TerminalCache)
        ensures
            c.last() is None,
    {
        TerminalCache { entry: None }
    }
}

/// The cached result that is still valid at `now`, if any (see [`cached_terminal_result`]).
pub open spec fn fresh_result(cache: Option<(u64, bool)>, now: u64) -> Option<bool> {
    match cache {
        Some((t, b)) => if now >= t && now - t < CACHE_DURATION_MS || now < t { Some(b) } else { None },
        None => None,
    }
}

/// Whether the active window is a terminal, at time `now` (milliseconds): the cached result
/// while it is valid; otherwise the class `active_class` reports (the lower-cased class of the
/// active window, `None` when it cannot be detected) is checked, and the result cached.
pub fn is_active_window_terminal<F: FnOnce() -> Option<String>>(cache: &mut TerminalCache, now: u64, active_class: F) -> (r: bool)
    requires
        call_requires(active_class, ()),
    ensures
        match fresh_result(old(cache).last(), now) {
            Some(b) => r == b && final(cache).last() == old(cache).last(),
            None => final(cache).last() == Some((now, r)) && exists|c: Option<String>|
                call_ensures(active_class, (), c) && r == names_terminal(crate::config::opt_view(c)),
        },
{
    match cached_terminal_result(cache.entry, now) {
        Some(b) => b,
        None => {
            let class = active_class();
            let result = match &class {
                Some(c) => is_terminal_class(c.as_str()),
                None => false,
            };
            cache.entry = Some((now, result));
            proof {
                assert(call_ensures(active_class, (), class));
                assert(result == names_terminal(crate::config::opt_view(class)));
            }
            result
        },
    }
}

/// A window class names a terminal exactly when it contains the name of one of the terminals
/// the tool knows: Alacritty, kitty, WezTerm, foot, a generic "terminal", Konsole, Terminator,
/// xterm, urxvt, st, or VS Code ("code").
pub proof fn law_known_terminals(class: Seq<char>)
    ensures
        (exists|i: int| 0 <= i < terminal_apps().len() && contains_seq(class, #[trigger] terminal_apps()[i]))
            <==> (contains_seq(class, "alacritty"@)
            || contains_seq(class, "kitty"@)
            || contains_seq(class, "wezterm"@)
            || contains_seq(class, "foot"@)
            || contains_seq(class, "terminal"@)
            || contains_seq(class, "konsole"@)
            || contains_seq(class, "terminator"@)
            || contains_seq(class, "xterm"@)
            || contains_seq(class, "urxvt"@)
            || contains_seq(class, "st"@)
            || contains_seq(class, "code"@)),
{
    reveal_strlit("alacritty");
    reveal_strlit("kitty");
    reveal_strlit("wezterm");
    reveal_strlit("foot");
    reveal_strlit("terminal");
    reveal_strlit("konsole");
    reveal_strlit("terminator");
    reveal_strlit("xterm");
    reveal_strlit("urxvt");
    reveal_strlit("st");
    reveal_strlit("code");
    assert(terminal_apps()[0] == "alacritty"@);
    assert(terminal_apps()[1] == "kitty"@);
    assert(terminal_apps()[2] == "wezterm"@);
    assert(terminal_apps()[3] == "foot"@);
    assert(terminal_apps()[4] == "terminal"@);
    assert(terminal_apps()[5] == "konsole"@);
    assert(terminal_apps()[6] == "terminator"@);
    assert(terminal_apps()[7] == "xterm"@);
    assert(terminal_apps()[8] == "urxvt"@);
    assert(terminal_apps()[9] == "st"@);
    assert(terminal_apps()[10] == "code"@);
    if exists|i: int| 0 <= i < terminal_apps().len() && contains_seq(class, #[trigger] terminal_apps()[i]) {
        let i = choose|i: int| 0 <= i < terminal_apps().len() && contains_seq(class, #[trigger] terminal_apps()[i]);
        assert(0 <= i < 11);
    }
}

} // verus!
