//! The table from shortcut identifiers to hotkey bindings.
use vstd::prelude::*;
use crate::config::{HotkeyBinding, HotkeyBindingView};
use crate::text::{lowercase, is_prefix};

verus! {

/// Whether no two entries share a shortcut identifier.
pub open spec fn keys_unique(s: Seq<(String, HotkeyBinding)>) -> bool {
    forall|i: int, j: int|
        0 <= i < s.len() && 0 <= j < s.len() && i != j ==> #[trigger] s[i].0@ != #[trigger] s[j].0@
}

/// Whether some entry has the given identifier.
pub open spec fn has_key(s: Seq<(String, HotkeyBinding)>, k: Seq<char>) -> bool {
    exists|i: int| 0 <= i < s.len() && #[trigger] s[i].0@ == k
}

/// The position of the entry with the given identifier.
pub open spec fn key_index(s: Seq<(String, HotkeyBinding)>, k: Seq<char>) -> int {
    choose|i: int| 0 <= i < s.len() && #[trigger] s[i].0@ == k
}

/// The map that a list of entries denotes.
pub open spec fn entries_map(s: Seq<(String, HotkeyBinding)>) -> Map<Seq<char>, HotkeyBindingView> {
    Map::new(|k: Seq<char>| has_key(s, k), |k: Seq<char>| s[key_index(s, k)].1@)
}

/// In a list with unique identifiers, the entry at `i` is the one the map gives for its key.
pub proof fn lemma_entry_in_map(s: Seq<(String, HotkeyBinding)>, i: int)
    requires
        keys_unique(s),
        0 <= i < s.len(),
    ensures
        entries_map(s).contains_key(s[i].0@),
        entries_map(s)[s[i].0@] == s[i].1@,
        key_index(s, s[i].0@) == i,
{
    assert(has_key(s, s[i].0@));
    let j = key_index(s, s[i].0@);
    assert(0 <= j < s.len() && s[j].0@ == s[i].0@);
    if j != i {
        assert(s[i].0@ != s[j].0@);
    }
}

/// A table of hotkey bindings keyed by shortcut identifier, in which each identifier occurs once.
#[derive(Debug, Clone)]
pub struct BindingMap {
    entries: Vec<(String, HotkeyBinding)>,
}

impl View for BindingMap {
    type V = Map<Seq<char>, HotkeyBindingView>;

    closed spec fn view(&self) -> Map<Seq<char>, HotkeyBindingView> {
        entries_map(self.entries@)
    }
}

impl BindingMap {
    /// Well-formedness: each identifier occurs once.
    pub closed spec fn wf(&self) -> bool {
        keys_unique(self.entries@)
    }

    /// An empty table.
    pub fn new() -> (m: BindingMap)
        ensures
            m.wf(),
            m@ == Map::<Seq<char>, HotkeyBindingView>::empty(),
    {
        let m = BindingMap { entries: Vec::new() };
        assert(m@ =~= Map::<Seq<char>, HotkeyBindingView>::empty());
        m
    }

    /// Number of identifiers in the table.
    pub fn len(&self) -> (n: usize)
        requires
            self.wf(),
        ensures
            n == self@.len(),
    {
        proof {
            self.lemma_len();
        }
        self.entries.len()
    }

    /// Whether the table is empty.
    pub fn is_empty(&self) -> (b: bool)
        requires
            self.wf(),
        ensures
            b == (self@.len() == 0),
    {
        self.len() == 0
    }

    proof fn lemma_len(&self)
        requires
            self.wf(),
        ensures
            self@.dom().finite(),
            self@.len() == self.entries@.len(),
        decreases self.entries@.len(),
    {
        let s = self.entries@;
        let keys = Seq::new(s.len(), |i: int| s[i].0@);
        assert(keys.no_duplicates()) by {
            assert forall|i: int, j: int| 0 <= i < keys.len() && 0 <= j < keys.len() && i != j
                implies keys[i] != keys[j] by {
                assert(s[i].0@ != s[j].0@);
            }
        }
        assert(self@.dom() =~= keys.to_set()) by {
            assert forall|k: Seq<char>| self@.dom().contains(k) implies keys.to_set().contains(k) by {
                let i = key_index(s, k);
                assert(keys[i] == k);
            }
            assert forall|k: Seq<char>| keys.to_set().contains(k) implies self@.dom().contains(k) by {
                let i = choose|i: int| 0 <= i < keys.len() && keys[i] == k;
                assert(s[i].0@ == k);
            }
        }
        keys.unique_seq_to_set();
    }

    /// The identifiers in the table, each once.
    pub fn keys(&self) -> (r: Vec<String>)
        requires
            self.wf(),
        ensures
            r@.len() == self@.len(),
            forall|i: int| 0 <= i < r@.len() ==> self@.contains_key(#[trigger] r@[i]@),
            forall|k: Seq<char>| self@.contains_key(k) ==> exists|i: int| 0 <= i < r@.len() && #[trigger] r@[i]@ == k,
            forall|i: int, j: int| 0 <= i < j < r@.len() ==> #[trigger] r@[i]@ != #[trigger] r@[j]@,
    {
        proof {
            self.lemma_len();
        }
        let mut r: Vec<String> = Vec::new();
        let mut i: usize = 0;
        while i < self.entries.len()
            invariant
                i <= self.entries@.len(),
                r@.len() == i,
                forall|j: int| 0 <= j < i ==> #[trigger] r@[j]@ == self.entries@[j].0@,
            decreases self.entries.len() - i,
        {
            r.push(self.entries[i].0.clone());
            i += 1;
        }
        proof {
            let s = self.entries@;
            assert forall|j: int| 0 <= j < r@.len() implies self@.contains_key(#[trigger] r@[j]@) by {
                lemma_entry_in_map(s, j);
            }
            assert forall|k: Seq<char>| self@.contains_key(k) implies exists|j: int| 0 <= j < r@.len() && #[trigger] r@[j]@ == k by {
                let j = key_index(s, k);
                assert(r@[j]@ == k);
            }
            assert forall|a: int, b: int| 0 <= a < b < r@.len() implies #[trigger] r@[a]@ != #[trigger] r@[b]@ by {
                assert(s[a].0@ != s[b].0@);
            }
        }
        r
    }

    /// The binding stored for `shortcut_id`, if any.
    pub fn get(&self, shortcut_id: &str) -> (r: Option<&HotkeyBinding>)
        requires
            self.wf(),
        ensures
            r is Some <==> self@.contains_key(shortcut_id@),
            r is Some ==> r.unwrap()@ == self@[shortcut_id@],
    {
        let mut i: usize = 0;
        while i < self.entries.len()
            invariant
                self.wf(),
                i <= self.entries@.len(),
                forall|j: int| 0 <= j < i ==> #[trigger] self.entries@[j].0@ != shortcut_id@,
            decreases self.entries.len() - i,
        {
            if crate::text::str_eq(self.entries[i].0.as_str(), shortcut_id) {
                proof {
                    lemma_entry_in_map(self.entries@, i as int);
                }
                return Some(&self.entries[i].1);
            }
            i += 1;
        }
        proof {
            if self@.contains_key(shortcut_id@) {
                let j = key_index(self.entries@, shortcut_id@);
                assert(self.entries@[j].0@ == shortcut_id@);
            }
        }
        None
    }

    /// Binds `shortcut_id` to `binding`, replacing any earlier binding of that identifier.
    pub fn insert(&mut self, shortcut_id: String, binding: HotkeyBinding)
        requires
            old(self).wf(),
        ensures
            final(self).wf(),
            final(self)@ == old(self)@.insert(shortcut_id@, binding@),
    {
        let ghost old_s = self.entries@;
        let mut i: usize = 0;
        while i < self.entries.len()
            invariant
                self.entries@ == old_s,
                old_s == old(self).entries@,
                keys_unique(old_s),
                i <= old_s.len(),
                forall|j: int| 0 <= j < i ==> #[trigger] old_s[j].0@ != shortcut_id@,
            decreases self.entries.len() - i,
        {
            if crate::text::str_eq(self.entries[i].0.as_str(), shortcut_id.as_str()) {
                let ghost key = shortcut_id@;
                let ghost bv = binding@;
                self.entries.set(i, (shortcut_id, binding));
                proof {
                    let s = self.entries@;
                    assert forall|a: int, b: int|
                        0 <= a < s.len() && 0 <= b < s.len() && a != b implies #[trigger] s[a].0@
                        != #[trigger] s[b].0@ by {
                        if a != i && b != i {
                            assert(old_s[a].0@ != old_s[b].0@);
                        } else if a == i {
                            assert(old_s[i as int].0@ != old_s[b].0@);
                        } else {
                            assert(old_s[a].0@ != old_s[i as int].0@);
                        }
                    }
                    lemma_entry_in_map(old_s, i as int);
                    assert forall|k: Seq<char>| #[trigger] has_key(s, k) == has_key(old_s, k) by {
                        if has_key(s, k) {
                            let j = choose|j: int| 0 <= j < s.len() && s[j].0@ == k;
                            assert(old_s[j].0@ == k);
                        }
                        if has_key(old_s, k) {
                            let j = choose|j: int| 0 <= j < old_s.len() && old_s[j].0@ == k;
                            assert(s[j].0@ == k);
                        }
                    }
                    assert forall|k: Seq<char>| has_key(s, k) && k != key implies
                        entries_map(s)[k] == entries_map(old_s)[k] by {
                        let j = key_index(old_s, k);
                        lemma_entry_in_map(old_s, j);
                        assert(j != i);
                        lemma_entry_in_map(s, j);
                    }
                    lemma_entry_in_map(s, i as int);
                    assert(s[i as int].1@ == bv);
                    assert(entries_map(s) =~= entries_map(old_s).insert(key, bv));
                }
                return;
            }
            i += 1;
        }
        let ghost key = shortcut_id@;
        let ghost b = binding@;
        self.entries.push((shortcut_id, binding));
        proof {
            let s = self.entries@;
            let n = old_s.len() as int;
            assert forall|a: int, c: int|
                0 <= a < s.len() && 0 <= c < s.len() && a != c implies #[trigger] s[a].0@
                != #[trigger] s[c].0@ by {
                if a != n && c != n {
                    assert(old_s[a].0@ != old_s[c].0@);
                } else if a == n {
                    assert(old_s[c].0@ != key);
                } else {
                    assert(old_s[a].0@ != key);
                }
            }
            lemma_entry_in_map(s, n);
            assert forall|k: Seq<char>| k != key implies #[trigger] has_key(s, k) == has_key(old_s, k) by {
                if has_key(s, k) {
                    let j = choose|j: int| 0 <= j < s.len() && s[j].0@ == k;
                    assert(j != n);
                    assert(old_s[j].0@ == k);
                }
                if has_key(old_s, k) {
                    let j = choose|j: int| 0 <= j < old_s.len() && old_s[j].0@ == k;
                    assert(s[j].0@ == k);
                }
            }
            assert forall|k: Seq<char>| has_key(s, k) && k != key implies
                entries_map(s)[k] == entries_map(old_s)[k] by {
                let j = key_index(old_s, k);
                lemma_entry_in_map(old_s, j);
                lemma_entry_in_map(s, j);
            }
            assert(entries_map(s) =~= entries_map(old_s).insert(key, b));
        }
    }
}


/// The prefix of every transcription shortcut identifier.
pub open spec fn shortcut_prefix() -> Seq<char> {
    "transcribe-"@
}

/// Shortcut identifier of a hotkey: the prefix followed by the lower-cased key.
pub fn shortcut_id_from_key(key: &str) -> (r: String)
    ensures
        r@ == shortcut_prefix() + lowercase(key@),
{
    let lower = crate::text::to_lowercase(key);
    crate::text::concat("transcribe-", lower.as_str())
}

/// Extract the key from a shortcut identifier.
pub fn key_from_shortcut_id(shortcut_id: &str) -> (r: Option<String>)
    ensures
        r is Some <==> is_prefix(shortcut_prefix(), shortcut_id@),
        r is Some ==> r->0@ == shortcut_id@.subrange(shortcut_prefix().len() as int, shortcut_id@.len() as int),
{
    crate::text::strip_prefix(shortcut_id, "transcribe-")
}

/// Turning a key into a shortcut identifier and back gives the lower-cased key.
pub proof fn law_shortcut_id_round_trip(key: Seq<char>)
    ensures
        is_prefix(shortcut_prefix(), shortcut_prefix() + lowercase(key)),
        (shortcut_prefix() + lowercase(key)).subrange(
            shortcut_prefix().len() as int,
            (shortcut_prefix() + lowercase(key)).len() as int,
        ) == lowercase(key),
{
    let p = shortcut_prefix();
    let s = p + lowercase(key);
    assert(s.subrange(0, p.len() as int) =~= p);
    assert(s.subrange(p.len() as int, s.len() as int) =~= lowercase(key));
}

/// The table that the hotkey daemon builds from the configured bindings: each binding under
/// the shortcut identifier of its key, later bindings replacing earlier ones.
pub open spec fn bindings_table(bs: Seq<HotkeyBinding>) -> Map<Seq<char>, HotkeyBindingView>
    decreases bs.len(),
{
    if bs.len() == 0 {
        Map::empty()
    } else {
        bindings_table(bs.drop_last()).insert(
            shortcut_prefix() + lowercase(bs.last().key@),
            bs.last()@,
        )
    }
}

/// Builds the table from shortcut identifiers to bindings for the configured hotkeys.
pub fn binding_map_from_bindings(bindings: &[HotkeyBinding]) -> (m: BindingMap)
    ensures
        m.wf(),
        m@ == bindings_table(bindings@),
{
    let mut m = BindingMap::new();
    let mut i: usize = 0;
    while i < bindings.len()
        invariant
            i <= bindings.len(),
            m.wf(),
            m@ == bindings_table(bindings@.take(i as int)),
        decreases bindings.len() - i,
    {
        let id = shortcut_id_from_key(bindings[i].key.as_str());
        m.insert(id, bindings[i].duplicate());
        assert(bindings@.take(i as int + 1).drop_last() == bindings@.take(i as int));
        i += 1;
    }
    assert(bindings@.take(bindings.len() as int) == bindings@);
    m
}

} // verus!
