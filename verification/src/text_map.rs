//! Tables keyed by text, such as the tool sets and the prompt-to-tool-set mapping of the LLM
//! configuration.
use vstd::prelude::*;

verus! {

/// Whether no two entries share a key.
pub open spec fn keys_unique<V>(s: Seq<(String, V)>) -> bool {
    forall|i: int, j: int|
        0 <= i < s.len() && 0 <= j < s.len() && i != j ==> #[trigger] s[i].0@ != #[trigger] s[j].0@
}

/// Whether some entry has the given key.
pub open spec fn has_key<V>(s: Seq<(String, V)>, k: Seq<char>) -> bool {
    exists|i: int| 0 <= i < s.len() && #[trigger] s[i].0@ == k
}

/// The position of the entry with the given key.
pub open spec fn key_index<V>(s: Seq<(String, V)>, k: Seq<char>) -> int {
    choose|i: int| 0 <= i < s.len() && #[trigger] s[i].0@ == k
}

/// The map that a list of entries denotes.
pub open spec fn entries_map<V>(s: Seq<(String, V)>) -> Map<Seq<char>, V> {
    Map::new(|k: Seq<char>| has_key(s, k), |k: Seq<char>| s[key_index(s, k)].1)
}

/// In a list with unique keys, the entry at `i` is the one the map gives for its key.
pub proof fn lemma_entry_in_map<V>(s: Seq<(String, V)>, i: int)
    requires
        keys_unique(s),
        0 <= i < s.len(),
    ensures
        entries_map(s).contains_key(s[i].0@),
        entries_map(s)[s[i].0@] == s[i].1,
        key_index(s, s[i].0@) == i,
{
    assert(has_key(s, s[i].0@));
    let j = key_index(s, s[i].0@);
    assert(0 <= j < s.len() && s[j].0@ == s[i].0@);
    if j != i {
        assert(s[i].0@ != s[j].0@);
    }
}

/// A table keyed by text, in which each key occurs once.
#[derive(Debug)]
pub struct TextMap<V> {
    entries: Vec<(String, V)>,
}

impl<V> View for TextMap<V> {
    type V = Map<Seq<char>, V>;

    closed spec fn view(&self) -> Map<Seq<char>, V> {
        entries_map(self.entries@)
    }
}

impl<V> TextMap<V> {
    /// Each key occurs once.
    #[verifier::type_invariant]
    closed spec fn wf(&self) -> bool {
        keys_unique(self.entries@)
    }

    /// An empty table.
    pub fn new() -> (m: TextMap<V>)
        ensures
            m@ == Map::<Seq<char>, V>::empty(),
    {
        let m = TextMap { entries: Vec::new() };
        assert(m@ =~= Map::<Seq<char>, V>::empty());
        m
    }

    /// Number of keys in the table.
    pub fn len(&self) -> (n: usize)
        ensures
            n == self@.len(),
    {
        proof {
            use_type_invariant(self);
            self.lemma_len();
        }
        self.entries.len()
    }

    /// Whether the table is empty.
    pub fn is_empty(&self) -> (b: bool)
        ensures
            b == (self@.len() == 0),
    {
        self.len() == 0
    }

    proof fn lemma_len(&self)
        requires
            self.wf(),
        ensures
            self@.dom().finite(),
            self@.len() == self.entries@.len(),
        decreases self.entries@.len(),
    {
        let s = self.entries@;
        let keys = Seq::new(s.len(), |i: int| s[i].0@);
        assert(keys.no_duplicates()) by {
            assert forall|i: int, j: int| 0 <= i < keys.len() && 0 <= j < keys.len() && i != j
                implies keys[i] != keys[j] by {
                assert(s[i].0@ != s[j].0@);
            }
        }
        assert(self@.dom() =~= keys.to_set()) by {
            assert forall|k: Seq<char>| self@.dom().contains(k) implies keys.to_set().contains(k) by {
                let i = key_index(s, k);
                assert(keys[i] == k);
            }
            assert forall|k: Seq<char>| keys.to_set().contains(k) implies self@.dom().contains(k) by {
                let i = choose|i: int| 0 <= i < keys.len() && keys[i] == k;
                assert(s[i].0@ == k);
            }
        }
        keys.unique_seq_to_set();
    }

    /// The keys in the table, each once.
    pub fn keys(&self) -> (r: Vec<String>)
        ensures
            r@.len() == self@.len(),
            forall|i: int| 0 <= i < r@.len() ==> self@.contains_key(#[trigger] r@[i]@),
            forall|k: Seq<char>| self@.contains_key(k) ==> exists|i: int| 0 <= i < r@.len() && #[trigger] r@[i]@ == k,
            forall|i: int, j: int| 0 <= i < j < r@.len() ==> #[trigger] r@[i]@ != #[trigger] r@[j]@,
    {
        proof {
            use_type_invariant(self);
            self.lemma_len();
        }
        let mut r: Vec<String> = Vec::new();
        let mut i: usize = 0;
        while i < self.entries.len()
            invariant
                i <= self.entries@.len(),
                r@.len() == i,
                forall|j: int| 0 <= j < i ==> #[trigger] r@[j]@ == self.entries@[j].0@,
            decreases self.entries.len() - i,
        {
            r.push(self.entries[i].0.clone());
            i += 1;
        }
        proof {
            let s = self.entries@;
            assert forall|j: int| 0 <= j < r@.len() implies self@.contains_key(#[trigger] r@[j]@) by {
                lemma_entry_in_map(s, j);
            }
            assert forall|k: Seq<char>| self@.contains_key(k) implies exists|j: int| 0 <= j < r@.len() && #[trigger] r@[j]@ == k by {
                let j = key_index(s, k);
                assert(r@[j]@ == k);
            }
            assert forall|a: int, b: int| 0 <= a < b < r@.len() implies #[trigger] r@[a]@ != #[trigger] r@[b]@ by {
                assert(s[a].0@ != s[b].0@);
            }
        }
        r
    }

    /// The value stored for `key`, if any.
    pub fn get(&self, key: &str) -> (r: Option<&V>)
        ensures
            r is Some <==> self@.contains_key(key@),
            r is Some ==> *r.unwrap() == self@[key@],
    {
        proof {
            use_type_invariant(self);
        }
        let mut i: usize = 0;
        while i < self.entries.len()
            invariant
                self.wf(),
                i <= self.entries@.len(),
                forall|j: int| 0 <= j < i ==> #[trigger] self.entries@[j].0@ != key@,
            decreases self.entries.len() - i,
        {
            if crate::text::str_eq(self.entries[i].0.as_str(), key) {
                proof {
                    lemma_entry_in_map(self.entries@, i as int);
                }
                return Some(&self.entries[i].1);
            }
            i += 1;
        }
        proof {
            if self@.contains_key(key@) {
                let j = key_index(self.entries@, key@);
                assert(self.entries@[j].0@ == key@);
            }
        }
        None
    }

    /// Maps `name` to `value`, replacing any earlier value of that key.
    pub fn insert(&mut self, name: String, value: V)
        ensures
            final(self)@ == old(self)@.insert(name@, value),
    {
        proof {
            use_type_invariant(&*self);
        }
        let ghost old_s = self.entries@;
        let mut entries: Vec<(String, V)> = Vec::new();
        std::mem::swap(&mut entries, &mut self.entries);
        let mut i: usize = 0;
        while i < entries.len()
            invariant
                entries@ == old_s,
                old_s == old(self).entries@,
                keys_unique(old_s),
                i <= old_s.len(),
                forall|j: int| 0 <= j < i ==> #[trigger] old_s[j].0@ != name@,
            decreases entries.len() - i,
        {
            if crate::text::str_eq(entries[i].0.as_str(), name.as_str()) {
                let ghost key = name@;
                let ghost bv = value;
                entries.set(i, (name, value));
                proof {
                    let s = entries@;
                    assert forall|a: int, b: int|
                        0 <= a < s.len() && 0 <= b < s.len() && a != b implies #[trigger] s[a].0@
                        != #[trigger] s[b].0@ by {
                        if a != i && b != i {
                            assert(old_s[a].0@ != old_s[b].0@);
                        } else if a == i {
                            assert(old_s[i as int].0@ != old_s[b].0@);
                        } else {
                            assert(old_s[a].0@ != old_s[i as int].0@);
                        }
                    }
                    lemma_entry_in_map(old_s, i as int);
                    assert forall|k: Seq<char>| #[trigger] has_key(s, k) == has_key(old_s, k) by {
                        if has_key(s, k) {
                            let j = choose|j: int| 0 <= j < s.len() && s[j].0@ == k;
                            assert(old_s[j].0@ == k);
                        }
                        if has_key(old_s, k) {
                            let j = choose|j: int| 0 <= j < old_s.len() && old_s[j].0@ == k;
                            assert(s[j].0@ == k);
                        }
                    }
                    assert forall|k: Seq<char>| has_key(s, k) && k != key implies
                        entries_map(s)[k] == entries_map(old_s)[k] by {
                        let j = key_index(old_s, k);
                        lemma_entry_in_map(old_s, j);
                        assert(j != i);
                        lemma_entry_in_map(s, j);
                    }
                    lemma_entry_in_map(s, i as int);
                    assert(s[i as int].1 == bv);
                    assert(entries_map(s) =~= entries_map(old_s).insert(key, bv));
                }
                self.entries = entries;
                return;
            }
            i += 1;
        }
        let ghost key = name@;
        let ghost b = value;
        entries.push((name, value));
        proof {
            let s = entries@;
            let n = old_s.len() as int;
            assert forall|a: int, c: int|
                0 <= a < s.len() && 0 <= c < s.len() && a != c implies #[trigger] s[a].0@
                != #[trigger] s[c].0@ by {
                if a != n && c != n {
                    assert(old_s[a].0@ != old_s[c].0@);
                } else if a == n {
                    assert(old_s[c].0@ != key);
                } else {
                    assert(old_s[a].0@ != key);
                }
            }
            lemma_entry_in_map(s, n);
            assert forall|k: Seq<char>| k != key implies #[trigger] has_key(s, k) == has_key(old_s, k) by {
                if has_key(s, k) {
                    let j = choose|j: int| 0 <= j < s.len() && s[j].0@ == k;
                    assert(j != n);
                    assert(old_s[j].0@ == k);
                }
                if has_key(old_s, k) {
                    let j = choose|j: int| 0 <= j < old_s.len() && old_s[j].0@ == k;
                    assert(s[j].0@ == k);
                }
            }
            assert forall|k: Seq<char>| has_key(s, k) && k != key implies
                entries_map(s)[k] == entries_map(old_s)[k] by {
                let j = key_index(old_s, k);
                lemma_entry_in_map(old_s, j);
                lemma_entry_in_map(s, j);
            }
            assert(entries_map(s) =~= entries_map(old_s).insert(key, b));
        }
        self.entries = entries;
    }
}

impl<V: Clone> Clone for TextMap<V> {
    /// A copy with the same keys, each value cloned.
    fn clone(&self) -> (r: Self)
        ensures
            r@.dom() == self@.dom(),
            forall|k: Seq<char>| #[trigger] r@.contains_key(k) ==> cloned::<V>(self@[k], r@[k]),
    {
        proof {
            use_type_invariant(self);
        }
        let mut entries: Vec<(String, V)> = Vec::new();
        let mut i: usize = 0;
        while i < self.entries.len()
            invariant
                i <= self.entries@.len(),
                keys_unique(self.entries@),
                entries@.len() == i,
                forall|j: int| 0 <= j < i ==> #[trigger] entries@[j].0@ == self.entries@[j].0@,
                forall|j: int| 0 <= j < i ==> cloned::<V>(self.entries@[j].1, #[trigger] entries@[j].1),
            decreases self.entries.len() - i,
        {
            let k = self.entries[i].0.clone();
            let v = self.entries[i].1.clone();
            entries.push((k, v));
            i += 1;
        }
        proof {
            let s = self.entries@;
            let t = entries@;
            assert forall|a: int, b: int| 0 <= a < t.len() && 0 <= b < t.len() && a != b implies #[trigger] t[a].0@
                != #[trigger] t[b].0@ by {
                assert(s[a].0@ != s[b].0@);
            }
            assert forall|k: Seq<char>| #[trigger] has_key(t, k) == has_key(s, k) by {
                if has_key(t, k) {
                    let j = choose|j: int| 0 <= j < t.len() && t[j].0@ == k;
                    assert(s[j].0@ == k);
                }
                if has_key(s, k) {
                    let j = choose|j: int| 0 <= j < s.len() && s[j].0@ == k;
                    assert(t[j].0@ == k);
                }
            }
            assert(entries_map(t).dom() =~= entries_map(s).dom());
            assert forall|k: Seq<char>| #[trigger] entries_map(t).contains_key(k) implies cloned::<V>(
                entries_map(s)[k],
                entries_map(t)[k],
            ) by {
                let j = key_index(t, k);
                lemma_entry_in_map(t, j);
                lemma_entry_in_map(s, j);
            }
        }
        TextMap { entries }
    }
}

} // verus!
