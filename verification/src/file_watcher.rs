//! The file watcher's decisions: which files dropped into the watch directory are audio files
//! to transcribe, when a file has stopped changing and is ready, and how it is converted to WAV.
use vstd::prelude::*;
use crate::config::WatchConfig;
use crate::text::lowercase;

verus! {

broadcast use vstd::string::group_string_axioms;

/// The extension of a path as std's `Path::extension` reports it (the part of the file name
/// after its last dot), when it has one and it is valid UTF-8.
pub uninterp spec fn path_extension(path: Seq<char>) -> Option<Seq<char>>;

/// The components of a path as std's `Path::components` yields them, each as text.
pub uninterp spec fn path_components(path: Seq<char>) -> Seq<Seq<char>>;

/// The file stem of a path as std's `Path::file_stem` reports it (the file name without its
/// last extension), when it has one and it is valid UTF-8.
pub uninterp spec fn path_stem(path: Seq<char>) -> Option<Seq<char>>;

/// File stem of a path (std `Path::file_stem`, then `OsStr::to_str`).
#[verifier::external_body]
fn stem_of(path: &str) -> (r: Option<String>)
    ensures
        crate::config::opt_view(r) == path_stem(path@),
{
    std::path::Path::new(path).file_stem().and_then(|e| e.to_str()).map(|e| e.to_string())
}

/// Extension of a path (std `Path::extension`, then `OsStr::to_str`).
#[verifier::external_body]
fn extension_of(path: &str) -> (r: Option<String>)
    ensures
        crate::config::opt_view(r) == path_extension(path@),
{
    std::path::Path::new(path).extension().and_then(|e| e.to_str()).map(|e| e.to_string())
}

/// Components of a path (std `Path::components`, each through `OsStr::to_string_lossy`).
#[verifier::external_body]
fn components_of(path: &str) -> (r: Vec<String>)
    ensures
        r@.map_values(|c: String| c@) == path_components(path@),
{
    std::path::Path::new(path).components().map(|c| c.as_os_str().to_string_lossy().to_string()).collect()
}

/// Events emitted by the file watcher.
#[derive(Debug)]
pub enum WatchEvent {
    /// A new audio file is ready to be transcribed (already converted to WAV if needed)
    FileReady {
        /// Path to the WAV file (either original or converted)
        wav_path: String,
        /// Original file path (for moving to processed directory)
        original_path: String,
    },
    /// An error occurred
    Error(String),
}

/// Whether some string of a list holds the given characters.
pub open spec fn listed(list: Seq<String>, s: Seq<char>) -> bool {
    exists|i: int| 0 <= i < list.len() && #[trigger] list[i]@ == s
}

/// Whether `s` is one of the strings of `list`.
fn list_contains(list: &[String], s: &str) -> (r: bool)
    ensures
        r == listed(list@, s@),
{
    let mut i: usize = 0;
    while i < list.len()
        invariant
            i <= list.len(),
            forall|j: int| 0 <= j < i ==> #[trigger] list@[j]@ != s@,
        decreases list.len() - i,
    {
        if crate::text::str_eq(list[i].as_str(), s) {
            return true;
        }
        i += 1;
    }
    false
}

/// Check if a file has a supported audio extension (compared after lower-casing the extension).
pub fn is_audio_file(path: &str, extensions: &[String]) -> (r: bool)
    ensures
        r == match path_extension(path@) {
            Some(e) => listed(extensions@, lowercase(e)),
            None => false,
        },
{
    match extension_of(path) {
        Some(e) => {
            let lower = crate::text::to_lowercase(e.as_str());
            list_contains(extensions, lower.as_str())
        },
        None => false,
    }
}

/// Check if a file is in the processed subdirectory (some component of its path is `processed`).
pub fn is_in_processed_dir(path: &str) -> (r: bool)
    ensures
        r == exists|i: int|
            0 <= i < path_components(path@).len() && #[trigger] path_components(path@)[i] == "processed"@,
{
    let comps = components_of(path);
    let ghost cs = comps@.map_values(|c: String| c@);
    let mut i: usize = 0;
    while i < comps.len()
        invariant
            i <= comps.len(),
            cs == comps@.map_values(|c: String| c@),
            cs == path_components(path@),
            forall|j: int| 0 <= j < i ==> #[trigger] cs[j] != "processed"@,
        decreases comps.len() - i,
    {
        if crate::text::str_eq(comps[i].as_str(), "processed") {
            assert(cs[i as int] == "processed"@);
            return true;
        }
        i += 1;
    }
    false
}

/// Whether a path names an audio file with one of the extensions.
pub open spec fn audio_path(path: Seq<char>, extensions: Seq<String>) -> bool {
    match path_extension(path) {
        Some(e) => listed(extensions, lowercase(e)),
        None => false,
    }
}

/// Whether a path lies under a `processed` directory.
pub open spec fn processed_path(path: Seq<char>) -> bool {
    exists|i: int| 0 <= i < path_components(path).len() && #[trigger] path_components(path)[i] == "processed"@
}

/// Whether the watcher tracks a path: an audio file not under `processed`.
pub open spec fn tracked_path(path: Seq<char>, extensions: Seq<String>) -> bool {
    audio_path(path, extensions) && !processed_path(path)
}

/// A file waiting to be transcribed: when it last changed (milliseconds) and its size then.
#[derive(Debug, Clone)]
pub struct PendingFile {
    pub path: String,
    pub last_modified_ms: u64,
    pub last_size: u64,
}

/// A pending file as (path, time of last change, size then).
pub type PendingView = (Seq<char>, u64, u64);

/// The pending files as (path, time of last change, size then).
pub open spec fn pending_views(files: Seq<PendingFile>) -> Seq<PendingView> {
    files.map_values(|f: PendingFile| (f.path@, f.last_modified_ms, f.last_size))
}

/// No path is pending twice.
pub open spec fn unique_paths(entries: Seq<PendingView>) -> bool {
    forall|i: int, j: int| 0 <= i < j < entries.len() ==> #[trigger] entries[i].0 != #[trigger] entries[j].0
}

/// The pending files after noting a change of `entry.0`: its entry replaced in place when the
/// path is pending, appended otherwise.
pub open spec fn upsert(entries: Seq<PendingView>, entry: PendingView) -> Seq<PendingView> {
    if exists|i: int| 0 <= i < entries.len() && #[trigger] entries[i].0 == entry.0 {
        let i = choose|i: int| 0 <= i < entries.len() && #[trigger] entries[i].0 == entry.0;
        entries.update(i, entry)
    } else {
        entries.push(entry)
    }
}

/// The pending files after a file-system event on `paths` (each with its current size) at time
/// `now`: every tracked path is noted, in order.
pub open spec fn after_event(
    entries: Seq<PendingView>,
    paths: Seq<(Seq<char>, u64)>,
    now: u64,
    extensions: Seq<String>,
) -> Seq<PendingView>
    decreases paths.len(),
{
    if paths.len() == 0 {
        entries
    } else {
        let prev = after_event(entries, paths.drop_last(), now, extensions);
        let (p, size) = paths.last();
        if tracked_path(p, extensions) { upsert(prev, (p, now, size)) } else { prev }
    }
}

/// Whether a directory entry found by the start-up scan is noted: a non-empty regular file that
/// is tracked.
pub open spec fn scan_candidate(entry: (Seq<char>, bool, u64), extensions: Seq<String>) -> bool {
    entry.1 && tracked_path(entry.0, extensions) && entry.2 > 0
}

/// The pending files after the start-up scan found `found` (path, whether a regular file,
/// size) at time `now`.
pub open spec fn after_scan(
    entries: Seq<PendingView>,
    found: Seq<(Seq<char>, bool, u64)>,
    now: u64,
    extensions: Seq<String>,
) -> Seq<PendingView>
    decreases found.len(),
{
    if found.len() == 0 {
        entries
    } else {
        let prev = after_scan(entries, found.drop_last(), now, extensions);
        let e = found.last();
        if scan_candidate(e, extensions) { upsert(prev, (e.0, now, e.2)) } else { prev }
    }
}

/// How many scanned entries are noted.
pub open spec fn scan_count(found: Seq<(Seq<char>, bool, u64)>, extensions: Seq<String>) -> nat
    decreases found.len(),
{
    if found.len() == 0 {
        0
    } else {
        scan_count(found.drop_last(), extensions) + if scan_candidate(found.last(), extensions) { 1nat } else { 0nat }
    }
}

/// Whether a pending file is ready at time `now`, given its current size: it has not changed
/// for `debounce` milliseconds and its size is unchanged and not zero.
pub open spec fn is_ready(entry: PendingView, current_size: u64, now: u64, debounce: u64) -> bool {
    &&& (if now >= entry.1 { now - entry.1 } else { 0 }) >= debounce
    &&& current_size == entry.2
    &&& current_size > 0
}

/// The paths of the pending files that are ready, in order (`sizes` holds the current size of
/// each pending file).
pub open spec fn ready_paths(entries: Seq<PendingView>, sizes: Seq<u64>, now: u64, debounce: u64) -> Seq<Seq<char>>
    decreases entries.len(),
{
    if entries.len() == 0 || sizes.len() != entries.len() {
        Seq::empty()
    } else {
        let prev = ready_paths(entries.drop_last(), sizes.drop_last(), now, debounce);
        if is_ready(entries.last(), sizes.last(), now, debounce) { prev.push(entries.last().0) } else { prev }
    }
}

/// The pending files that are not ready, in order.
pub open spec fn not_ready(entries: Seq<PendingView>, sizes: Seq<u64>, now: u64, debounce: u64) -> Seq<PendingView>
    decreases entries.len(),
{
    if entries.len() == 0 || sizes.len() != entries.len() {
        entries
    } else {
        let prev = not_ready(entries.drop_last(), sizes.drop_last(), now, debounce);
        if is_ready(entries.last(), sizes.last(), now, debounce) { prev } else { prev.push(entries.last()) }
    }
}

/// The debouncing state of the file watcher: the files seen changing that are not yet ready,
/// with the watched extensions (lower-cased) and the debounce time.
pub struct FileWatcher {
    pending: Vec<PendingFile>,
    extensions: Vec<String>,
    debounce_ms: u64,
}

impl FileWatcher {
    /// The pending files, in the order they were first noted.
    pub closed spec fn entries(&self) -> Seq<PendingView> {
        pending_views(self.pending@)
    }

    /// The watched extensions, lower-cased.
    pub closed spec fn exts(&self) -> Seq<String> {
        self.extensions@
    }

    /// How long a file must stay unchanged, in milliseconds.
    pub closed spec fn debounce(&self) -> u64 {
        self.debounce_ms
    }

    /// Well-formedness: no path is pending twice.
    pub closed spec fn wf(&self) -> bool {
        unique_paths(self.entries())
    }

    /// The watcher for a configuration: nothing pending, the configured extensions lower-cased,
    /// and the configured debounce time.
    pub fn new(config: &WatchConfig) -> (w: FileWatcher)
        ensures
            w.wf(),
            w.entries().len() == 0,
            w.debounce() == config.debounce_ms,
            w.exts().len() == config.extensions@.len(),
            forall|i: int| 0 <= i < w.exts().len() ==> #[trigger] w.exts()[i]@ == lowercase(config.extensions@[i]@),
    {
        let mut extensions: Vec<String> = Vec::new();
        let mut i: usize = 0;
        while i < config.extensions.len()
            invariant
                i <= config.extensions@.len(),
                extensions@.len() == i,
                forall|j: int| 0 <= j < i ==> #[trigger] extensions@[j]@ == lowercase(config.extensions@[j]@),
            decreases config.extensions.len() - i,
        {
            extensions.push(crate::text::to_lowercase(config.extensions[i].as_str()));
            i += 1;
        }
        FileWatcher { pending: Vec::new(), extensions, debounce_ms: config.debounce_ms }
    }

    /// The paths of the pending files, in order.
    pub fn pending_paths(&self) -> (r: Vec<String>)
        ensures
            r@.len() == self.entries().len(),
            forall|i: int| 0 <= i < r@.len() ==> #[trigger] r@[i]@ == self.entries()[i].0,
    {
        let mut r: Vec<String> = Vec::new();
        let mut i: usize = 0;
        while i < self.pending.len()
            invariant
                i <= self.pending@.len(),
                r@.len() == i,
                forall|j: int| 0 <= j < i ==> #[trigger] r@[j]@ == self.pending@[j].path@,
            decreases self.pending.len() - i,
        {
            r.push(self.pending[i].path.clone());
            i += 1;
        }
        r
    }

    /// Whether the watcher tracks a path: an audio file with a watched extension, not under a
    /// `processed` directory.
    pub fn tracks(&self, path: &str) -> (r: bool)
        ensures
            r == tracked_path(path@, self.exts()),
    {
        is_audio_file(path, &self.extensions) && !is_in_processed_dir(path)
    }

    /// Note that `path` changed at time `now` with the given size.
    fn note(&mut self, path: String, now_ms: u64, size: u64)
        requires
            old(self).wf(),
        ensures
            final(self).wf(),
            final(self).entries() == upsert(old(self).entries(), (path@, now_ms, size)),
            final(self).exts() == old(self).exts(),
            final(self).debounce() == old(self).debounce(),
    {
        let ghost es = self.entries();
        let mut i: usize = 0;
        while i < self.pending.len()
            invariant
                i <= self.pending@.len(),
                es == pending_views(self.pending@),
                es == old(self).entries(),
                self.wf(),
                self.exts() == old(self).exts(),
                self.debounce() == old(self).debounce(),
                forall|j: int| 0 <= j < i ==> #[trigger] es[j].0 != path@,
            decreases self.pending.len() - i,
        {
            if crate::text::str_eq(self.pending[i].path.as_str(), path.as_str()) {
                let entry = PendingFile { path, last_modified_ms: now_ms, last_size: size };
                self.pending.set(i, entry);
                proof {
                    assert(es[i as int].0 == path@);
                    let k = choose|k: int| 0 <= k < es.len() && #[trigger] es[k].0 == path@;
                    assert(k == i) by {
                        if k < i {
                        } else if k > i {
                            assert(es[i as int].0 != es[k].0);
                        }
                    }
                    assert(pending_views(self.pending@) =~= es.update(i as int, (path@, now_ms, size)));
                    let ne = pending_views(self.pending@);
                    assert forall|a: int, b: int| 0 <= a < b < ne.len() implies #[trigger] ne[a].0 != #[trigger] ne[b].0 by {
                        assert(es[a].0 != es[b].0);
                    }
                }
                return;
            }
            i += 1;
        }
        let entry = PendingFile { path, last_modified_ms: now_ms, last_size: size };
        self.pending.push(entry);
        proof {
            assert(pending_views(self.pending@) =~= es.push((path@, now_ms, size)));
            assert(!exists|j: int| 0 <= j < es.len() && #[trigger] es[j].0 == path@);
            let ne = pending_views(self.pending@);
            assert forall|a: int, b: int| 0 <= a < b < ne.len() implies #[trigger] ne[a].0 != #[trigger] ne[b].0 by {
                if b < es.len() {
                    assert(es[a].0 != es[b].0);
                } else {
                    assert(ne[b].0 == path@);
                    assert(ne[a] == es[a]);
                }
            }
        }
    }

    /// A file-system event that created, modified or finished writing `paths` (each with its
    /// current size) at time `now`: every tracked path becomes pending with that time and size.
    pub fn on_event(&mut self, paths: Vec<(String, u64)>, now_ms: u64)
        requires
            old(self).wf(),
        ensures
            final(self).wf(),
            final(self).entries() == after_event(
                old(self).entries(),
                paths@.map_values(|p: (String, u64)| (p.0@, p.1)),
                now_ms,
                old(self).exts(),
            ),
            final(self).exts() == old(self).exts(),
            final(self).debounce() == old(self).debounce(),
    {
        let ghost ps = paths@.map_values(|p: (String, u64)| (p.0@, p.1));
        let ghost start = self.entries();
        let mut i: usize = 0;
        while i < paths.len()
            invariant
                i <= paths@.len(),
                ps == paths@.map_values(|p: (String, u64)| (p.0@, p.1)),
                self.wf(),
                self.exts() == old(self).exts(),
                self.debounce() == old(self).debounce(),
                self.entries() == after_event(start, ps.take(i as int), now_ms, self.exts()),
            decreases paths.len() - i,
        {
            proof {
                assert(ps.take(i as int + 1).drop_last() == ps.take(i as int));
            }
            let path = paths[i].0.clone();
            let size = paths[i].1;
            if self.tracks(path.as_str()) {
                self.note(path, now_ms, size);
            }
            i += 1;
        }
        assert(ps.take(paths.len() as int) == ps);
    }

    /// The start-up scan found `found` (path, whether a regular file, size) at time `now`:
    /// every non-empty tracked file becomes pending. Returns how many were noted.
    pub fn on_scan(&mut self, found: Vec<(String, bool, u64)>, now_ms: u64) -> (count: usize)
        requires
            old(self).wf(),
        ensures
            final(self).wf(),
            final(self).entries() == after_scan(
                old(self).entries(),
                found@.map_values(|e: (String, bool, u64)| (e.0@, e.1, e.2)),
                now_ms,
                old(self).exts(),
            ),
            count == scan_count(found@.map_values(|e: (String, bool, u64)| (e.0@, e.1, e.2)), old(self).exts()),
            final(self).exts() == old(self).exts(),
            final(self).debounce() == old(self).debounce(),
    {
        let ghost fs = found@.map_values(|e: (String, bool, u64)| (e.0@, e.1, e.2));
        let ghost start = self.entries();
        let mut count: usize = 0;
        let mut i: usize = 0;
        while i < found.len()
            invariant
                i <= found@.len(),
                fs == found@.map_values(|e: (String, bool, u64)| (e.0@, e.1, e.2)),
                self.wf(),
                self.exts() == old(self).exts(),
                self.debounce() == old(self).debounce(),
                self.entries() == after_scan(start, fs.take(i as int), now_ms, self.exts()),
                count == scan_count(fs.take(i as int), self.exts()),
                count <= i,
            decreases found.len() - i,
        {
            proof {
                assert(fs.take(i as int + 1).drop_last() == fs.take(i as int));
            }
            let path = found[i].0.clone();
            let is_file = found[i].1;
            let size = found[i].2;
            if is_file && self.tracks(path.as_str()) && size > 0 {
                self.note(path, now_ms, size);
                count += 1;
            }
            i += 1;
        }
        assert(fs.take(found.len() as int) == fs);
        count
    }

    /// Take the files that are ready at time `now` (`current_sizes` holds the current size of
    /// each pending file, in the order of [`Self::pending_paths`]): their paths, in order; the
    /// others stay pending unchanged.
    pub fn take_ready(&mut self, now_ms: u64, current_sizes: &[u64]) -> (ready: Vec<String>)
        requires
            old(self).wf(),
            current_sizes@.len() == old(self).entries().len(),
        ensures
            final(self).wf(),
            ready@.map_values(|p: String| p@) == ready_paths(old(self).entries(), current_sizes@, now_ms, old(self).debounce()),
            final(self).entries() == not_ready(old(self).entries(), current_sizes@, now_ms, old(self).debounce()),
            final(self).exts() == old(self).exts(),
            final(self).debounce() == old(self).debounce(),
    {
        let ghost es = self.entries();
        let d = self.debounce_ms;
        let mut ready: Vec<String> = Vec::new();
        let mut kept: Vec<PendingFile> = Vec::new();
        let mut i: usize = 0;
        while i < self.pending.len()
            invariant
                i <= self.pending@.len(),
                es == pending_views(self.pending@),
                current_sizes@.len() == es.len(),
                d == self.debounce_ms,
                ready@.map_values(|p: String| p@) == ready_paths(es.take(i as int), current_sizes@.take(i as int), now_ms, d),
                pending_views(kept@) == not_ready(es.take(i as int), current_sizes@.take(i as int), now_ms, d),
            decreases self.pending.len() - i,
        {
            proof {
                assert(es.take(i as int + 1).drop_last() == es.take(i as int));
                assert(current_sizes@.take(i as int + 1).drop_last() == current_sizes@.take(i as int));
            }
            let f = &self.pending[i];
            let cur = current_sizes[i];
            let elapsed = if now_ms >= f.last_modified_ms { now_ms - f.last_modified_ms } else { 0 };
            if elapsed >= d && cur == f.last_size && cur > 0 {
                let ghost before = ready@;
                ready.push(f.path.clone());
                proof {
                    assert(ready@.map_values(|p: String| p@) =~= before.map_values(|p: String| p@).push(es[i as int].0));
                }
            } else {
                let ghost before = kept@;
                kept.push(PendingFile { path: f.path.clone(), last_modified_ms: f.last_modified_ms, last_size: f.last_size });
                proof {
                    assert(pending_views(kept@) =~= pending_views(before).push(es[i as int]));
                }
            }
            i += 1;
        }
        proof {
            assert(es.take(es.len() as int) == es);
            assert(current_sizes@.take(es.len() as int) == current_sizes@);
            lemma_not_ready_subsequence(es, current_sizes@, now_ms, d);
        }
        self.pending = kept;
        ready
    }
}

/// What stays pending is a subsequence of what was pending, so paths stay unique.
proof fn lemma_not_ready_subsequence(entries: Seq<PendingView>, sizes: Seq<u64>, now: u64, debounce: u64)
    requires
        unique_paths(entries),
        sizes.len() == entries.len(),
    ensures
        unique_paths(not_ready(entries, sizes, now, debounce)),
        forall|k: int| 0 <= k < not_ready(entries, sizes, now, debounce).len() ==> exists|j: int|
            0 <= j < entries.len() && #[trigger] not_ready(entries, sizes, now, debounce)[k] == entries[j],
    decreases entries.len(),
{
    if entries.len() > 0 {
        let prev_e = entries.drop_last();
        let prev_s = sizes.drop_last();
        lemma_not_ready_subsequence(prev_e, prev_s, now, debounce);
        let prev = not_ready(prev_e, prev_s, now, debounce);
        let r = not_ready(entries, sizes, now, debounce);
        assert forall|k: int| 0 <= k < prev.len() implies exists|j: int| 0 <= j < entries.len() - 1 && #[trigger] prev[k] == entries[j] by {
            let j = choose|j: int| 0 <= j < prev_e.len() && #[trigger] prev[k] == prev_e[j];
            assert(prev[k] == entries[j]);
        }
        if !is_ready(entries.last(), sizes.last(), now, debounce) {
            assert forall|a: int, b: int| 0 <= a < b < r.len() implies #[trigger] r[a].0 != #[trigger] r[b].0 by {
                if b == r.len() - 1 {
                    let j = choose|j: int| 0 <= j < entries.len() - 1 && #[trigger] prev[a] == entries[j];
                    assert(r[a] == entries[j]);
                    assert(r[b] == entries[entries.len() - 1]);
                } else {
                    assert(r[a] == prev[a] && r[b] == prev[b]);
                }
            }
            assert forall|k: int| 0 <= k < r.len() implies exists|j: int| 0 <= j < entries.len() && #[trigger] r[k] == entries[j] by {
                if k == r.len() - 1 {
                    assert(r[k] == entries[entries.len() - 1]);
                } else {
                    let j = choose|j: int| 0 <= j < entries.len() - 1 && #[trigger] prev[k] == entries[j];
                    assert(r[k] == entries[j]);
                }
            }
        }
    }
}

/// Whether `path` is the path of a pending file that is ready.
pub open spec fn is_ready_path(entries: Seq<PendingView>, sizes: Seq<u64>, now: u64, debounce: u64, path: Seq<char>) -> bool {
    exists|j: int| 0 <= j < entries.len() && is_ready(entries[j], sizes[j], now, debounce) && #[trigger] entries[j].0 == path
}

/// Every path handed out as ready belongs to a pending file that is ready.
proof fn lemma_ready_paths_are_ready(entries: Seq<PendingView>, sizes: Seq<u64>, now: u64, debounce: u64)
    requires
        sizes.len() == entries.len(),
    ensures
        forall|m: int| 0 <= m < ready_paths(entries, sizes, now, debounce).len() ==> is_ready_path(
            entries,
            sizes,
            now,
            debounce,
            #[trigger] ready_paths(entries, sizes, now, debounce)[m],
        ),
    decreases entries.len(),
{
    if entries.len() > 0 {
        let pe = entries.drop_last();
        let ps = sizes.drop_last();
        lemma_ready_paths_are_ready(pe, ps, now, debounce);
        let prev = ready_paths(pe, ps, now, debounce);
        let r = ready_paths(entries, sizes, now, debounce);
        assert forall|m: int| 0 <= m < r.len() implies is_ready_path(entries, sizes, now, debounce, #[trigger] r[m]) by {
            if m < prev.len() {
                assert(is_ready_path(pe, ps, now, debounce, prev[m]));
                let j = choose|j: int| 0 <= j < pe.len() && is_ready(pe[j], ps[j], now, debounce) && #[trigger] pe[j].0 == prev[m];
                assert(r[m] == prev[m]);
                assert(entries[j] == pe[j] && sizes[j] == ps[j]);
                assert(entries[j].0 == r[m]);
            } else {
                let n = entries.len() - 1;
                assert(r[m] == entries[n].0);
                assert(is_ready(entries[n], sizes[n], now, debounce));
                assert(entries[n].0 == r[m]);
            }
        }
    }
}

/// A pending file whose size is unchanged (and not zero) `debounce` milliseconds after its last
/// change is handed out as ready, and is pending no more; a pending file that is not ready stays
/// pending as it was and is not handed out.
pub proof fn law_debounce_hands_out_settled_files(
    entries: Seq<PendingView>,
    sizes: Seq<u64>,
    now: u64,
    debounce: u64,
    k: int,
)
    requires
        unique_paths(entries),
        sizes.len() == entries.len(),
        0 <= k < entries.len(),
    ensures
        is_ready(entries[k], sizes[k], now, debounce) ==> {
            &&& ready_paths(entries, sizes, now, debounce).contains(entries[k].0)
            &&& forall|j: int| 0 <= j < not_ready(entries, sizes, now, debounce).len()
                ==> #[trigger] not_ready(entries, sizes, now, debounce)[j].0 != entries[k].0
        },
        !is_ready(entries[k], sizes[k], now, debounce) ==> {
            &&& not_ready(entries, sizes, now, debounce).contains(entries[k])
            &&& !ready_paths(entries, sizes, now, debounce).contains(entries[k].0)
        },
    decreases entries.len(),
{
    let n = entries.len() - 1;
    let pe = entries.drop_last();
    let ps = sizes.drop_last();
    let prev_r = ready_paths(pe, ps, now, debounce);
    let prev_n = not_ready(pe, ps, now, debounce);
    let r = ready_paths(entries, sizes, now, debounce);
    let nr = not_ready(entries, sizes, now, debounce);
    lemma_not_ready_subsequence(pe, ps, now, debounce);
    lemma_ready_paths_are_ready(entries, sizes, now, debounce);
    assert(unique_paths(pe));
    if k < n {
        law_debounce_hands_out_settled_files(pe, ps, now, debounce, k);
        assert(pe[k] == entries[k] && ps[k] == sizes[k]);
        if is_ready(entries[k], sizes[k], now, debounce) {
            let m = choose|m: int| 0 <= m < prev_r.len() && prev_r[m] == entries[k].0;
            assert(r[m] == entries[k].0);
            assert forall|j: int| 0 <= j < nr.len() implies #[trigger] nr[j].0 != entries[k].0 by {
                if j < prev_n.len() {
                    assert(nr[j] == prev_n[j]);
                } else {
                    assert(nr[j] == entries[n]);
                    assert(entries[k].0 != entries[n].0);
                }
            }
        } else {
            let m = choose|m: int| 0 <= m < prev_n.len() && prev_n[m] == entries[k];
            assert(nr[m] == entries[k]);
            if r.contains(entries[k].0) {
                let m2 = choose|m2: int| 0 <= m2 < r.len() && r[m2] == entries[k].0;
                assert(is_ready_path(entries, sizes, now, debounce, r[m2]));
                let j = choose|j: int| 0 <= j < entries.len() && is_ready(entries[j], sizes[j], now, debounce) && #[trigger] entries[j].0 == r[m2];
                assert(j != k);
                assert(entries[j].0 != entries[k].0);
            }
        }
    } else {
        if is_ready(entries[k], sizes[k], now, debounce) {
            assert(r[r.len() - 1] == entries[k].0);
            assert forall|j: int| 0 <= j < nr.len() implies #[trigger] nr[j].0 != entries[k].0 by {
                assert(nr[j] == prev_n[j]);
                let i = choose|i: int| 0 <= i < pe.len() && #[trigger] prev_n[j] == pe[i];
                assert(pe[i] == entries[i]);
                assert(entries[i].0 != entries[n].0);
            }
        } else {
            assert(nr[nr.len() - 1] == entries[k]);
            if r.contains(entries[k].0) {
                let m2 = choose|m2: int| 0 <= m2 < r.len() && r[m2] == entries[k].0;
                assert(is_ready_path(entries, sizes, now, debounce, r[m2]));
                let j = choose|j: int| 0 <= j < entries.len() && is_ready(entries[j], sizes[j], now, debounce) && #[trigger] entries[j].0 == r[m2];
                assert(j != k);
                assert(entries[j].0 != entries[k].0);
            }
        }
    }
}

/// Noting a change keeps every path pending at most once, and the changed path is then pending
/// with the new time and size.
pub proof fn law_noted_file_is_pending(entries: Seq<PendingView>, entry: PendingView)
    requires
        unique_paths(entries),
    ensures
        unique_paths(upsert(entries, entry)),
        upsert(entries, entry).contains(entry),
{
    let u = upsert(entries, entry);
    if exists|i: int| 0 <= i < entries.len() && #[trigger] entries[i].0 == entry.0 {
        let i = choose|i: int| 0 <= i < entries.len() && #[trigger] entries[i].0 == entry.0;
        assert(u[i] == entry);
        assert forall|a: int, b: int| 0 <= a < b < u.len() implies #[trigger] u[a].0 != #[trigger] u[b].0 by {
            assert(entries[a].0 != entries[b].0);
        }
    } else {
        assert(u[u.len() - 1] == entry);
        assert forall|a: int, b: int| 0 <= a < b < u.len() implies #[trigger] u[a].0 != #[trigger] u[b].0 by {
            if b < entries.len() {
                assert(entries[a].0 != entries[b].0);
            } else {
                assert(u[a] == entries[a]);
            }
        }
    }
}

/// How a file becomes a WAV file to transcribe: `None` when it already is one (its extension,
/// lower-cased, is `wav`); otherwise the converted file's path in `/tmp`, named after the file's
/// stem (`audio` when it has none).
pub open spec fn conversion_target(path: Seq<char>) -> Option<Seq<char>> {
    let ext = match path_extension(path) {
        Some(e) => lowercase(e),
        None => lowercase(Seq::empty()),
    };
    if ext == "wav"@ {
        None
    } else {
        let stem = match path_stem(path) {
            Some(s) => s,
            None => "audio"@,
        };
        Some("/tmp/transcribe_watch_"@ + stem + ".wav"@)
    }
}

/// The arguments of the `ffmpeg` conversion of `input` to a 16 kHz mono WAV file at `output`.
pub open spec fn conversion_args(input: Seq<char>, output: Seq<char>) -> Seq<Seq<char>> {
    seq!["-y"@, "-i"@, input, "-ar"@, "16000"@, "-ac"@, "1"@, "-f"@, "wav"@, output]
}

/// How to prepare a ready file: `None` when it already is a WAV file; otherwise the path of the
/// WAV file to produce and the `ffmpeg` arguments that produce it.
pub fn conversion_plan(path: &str) -> (r: Option<(String, Vec<String>)>)
    ensures
        match r {
            None => conversion_target(path@) is None,
            Some((wav, args)) => conversion_target(path@) == Some(wav@)
                && args@.map_values(|a: String| a@) == conversion_args(path@, wav@),
        },
{
    let ext = match extension_of(path) {
        Some(e) => crate::text::to_lowercase(e.as_str()),
        None => {
            proof {
                reveal_strlit("");
                assert(""@ =~= Seq::<char>::empty());
            }
            crate::text::to_lowercase("")
        },
    };
    let ghost target_ext = match path_extension(path@) {
        Some(e) => lowercase(e),
        None => lowercase(Seq::empty()),
    };
    assert(ext@ == target_ext);
    if crate::text::str_eq(ext.as_str(), "wav") {
        assert(conversion_target(path@) is None);
        return None;
    }
    let stem = match stem_of(path) {
        Some(s) => s,
        None => "audio".to_string(),
    };
    let ghost target_stem = match path_stem(path@) {
        Some(s) => s,
        None => "audio"@,
    };
    assert(stem@ == target_stem);
    let named = crate::text::concat("/tmp/transcribe_watch_", stem.as_str());
    let wav = crate::text::concat(named.as_str(), ".wav");
    let mut args: Vec<String> = Vec::new();
    args.push("-y".to_string());
    args.push("-i".to_string());
    args.push(path.to_string());
    args.push("-ar".to_string());
    args.push("16000".to_string());
    args.push("-ac".to_string());
    args.push("1".to_string());
    args.push("-f".to_string());
    args.push("wav".to_string());
    args.push(wav.clone());
    proof {
        assert(args@.map_values(|a: String| a@) =~= conversion_args(path@, wav@));
    }
    Some((wav, args))
}

/// The event reporting that a ready file could not be prepared.
pub fn prepare_failure(path: &str, error: &str) -> (e: WatchEvent)
    ensures
        e matches WatchEvent::Error(m) && m@ == "Failed to prepare "@ + path@ + ": "@ + error@,
{
    let a = crate::text::concat("Failed to prepare ", path);
    let b = crate::text::concat(a.as_str(), ": ");
    WatchEvent::Error(crate::text::concat(b.as_str(), error))
}

/// A transcript with the text of one more chunk added: separated by a space when both are
/// non-empty.
pub open spec fn with_chunk(full: Seq<char>, chunk: Seq<char>) -> Seq<char> {
    if full.len() > 0 && chunk.len() > 0 { full + seq![' '] + chunk } else { full + chunk }
}

/// Add the text of one more chunk to a transcript (see [`with_chunk`]).
pub fn append_chunk_text(full_text: String, chunk_text: &str) -> (r: String)
    ensures
        r@ == with_chunk(full_text@, chunk_text@),
{
    if !full_text.as_str().is_empty() && !chunk_text.is_empty() {
        let spaced = crate::text::concat(full_text.as_str(), " ");
        proof {
            reveal_strlit(" ");
        }
        crate::text::concat(spaced.as_str(), chunk_text)
    } else {
        crate::text::concat(full_text.as_str(), chunk_text)
    }
}

/// Where the transcript of a watched file goes: in the watch directory, named after the file's
/// stem (`transcription` when it has none) with the extension `.txt`.
pub open spec fn transcript_file(watch_dir: Seq<char>, original: Seq<char>) -> Seq<char> {
    let stem = match path_stem(original) {
        Some(s) => s,
        None => "transcription"@,
    };
    crate::paths::path_join(watch_dir, stem + ".txt"@)
}

/// The transcript path of a watched file (see [`transcript_file`]).
pub fn transcript_path(watch_dir: &str, original_path: &str) -> (r: String)
    ensures
        r@ == transcript_file(watch_dir@, original_path@),
{
    let stem = match stem_of(original_path) {
        Some(s) => s,
        None => "transcription".to_string(),
    };
    let name = crate::text::concat(stem.as_str(), ".txt");
    crate::paths::join_path(watch_dir, name.as_str())
}

} // verus!
