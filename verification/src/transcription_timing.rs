//! Timing history used to estimate how long transcriptions and API calls take.
//!
//! The history is a list of lines `a,b` of two decimal numbers: recording and transcription
//! milliseconds, or input length and API milliseconds.
use vstd::prelude::*;
use crate::numbers::{decimal, parse_u64_spec, parse_u64, u64_to_decimal};

verus! {

/// Number of history lines kept.
pub const MAX_ENTRIES: usize = 100;

/// A single timing data point.
#[derive(Debug, Clone)]
pub struct TimingEntry {
    /// Recording duration in milliseconds
    pub recording_ms: u64,
    /// Transcription duration in milliseconds
    pub transcription_ms: u64,
}

/// API timing data point (text length in characters, API duration in milliseconds).
#[derive(Debug, Clone)]
pub struct ApiTimingEntry {
    /// Input text length in characters
    pub text_length: u64,
    /// API call duration in milliseconds
    pub api_ms: u64,
}

/// Whether `s` holds no comma.
pub open spec fn comma_free(s: Seq<char>) -> bool {
    forall|j: int| 0 <= j < s.len() ==> s[j] != ','
}

/// Whether position `i` holds the only comma of `s`.
pub open spec fn sole_comma(s: Seq<char>, i: int) -> bool {
    0 <= i < s.len() && s[i] == ',' && comma_free(s.subrange(0, i)) && comma_free(s.subrange(i + 1, s.len() as int))
}

/// The two fields of a line holding exactly one comma.
pub open spec fn two_fields(s: Seq<char>) -> Option<(Seq<char>, Seq<char>)> {
    if exists|i: int| sole_comma(s, i) {
        let i = choose|i: int| sole_comma(s, i);
        Some((s.subrange(0, i), s.subrange(i + 1, s.len() as int)))
    } else {
        None
    }
}

proof fn lemma_sole_comma_unique(s: Seq<char>, i: int, k: int)
    requires
        sole_comma(s, i),
        sole_comma(s, k),
    ensures
        i == k,
{
    if k < i {
        assert(s.subrange(0, i)[k] == s[k]);
    } else if k > i {
        assert(s.subrange(i + 1, s.len() as int)[k - i - 1] == s[k]);
    }
}

proof fn lemma_no_sole_comma(s: Seq<char>, c1: int, c2: int)
    requires
        0 <= c1 < c2 < s.len(),
        s[c1] == ',',
        s[c2] == ',',
    ensures
        !exists|i: int| sole_comma(s, i),
{
    assert forall|i: int| !sole_comma(s, i) by {
        if sole_comma(s, i) {
            if i < c1 || i == c1 {
                if i == c1 {
                    assert(s.subrange(i + 1, s.len() as int)[c2 - i - 1] == s[c2]);
                } else {
                    assert(s.subrange(i + 1, s.len() as int)[c1 - i - 1] == s[c1]);
                }
            } else {
                assert(s.subrange(0, i)[c1] == s[c1]);
            }
        }
    }
}

/// The first comma of `chars` at or after `from`.
fn find_comma(chars: &Vec<char>, from: usize) -> (r: Option<usize>)
    requires
        from <= chars.len(),
    ensures
        match r {
            Some(i) => from <= i < chars.len() && chars@[i as int] == ',' && forall|j: int| from <= j < i ==> chars@[j] != ',',
            None => forall|j: int| from <= j < chars.len() ==> chars@[j] != ',',
        },
{
    let mut i = from;
    while i < chars.len()
        invariant
            from <= i <= chars.len(),
            forall|j: int| from <= j < i ==> chars@[j] != ',',
        decreases chars.len() - i,
    {
        if chars[i] == ',' {
            return Some(i);
        }
        i += 1;
    }
    None
}

/// The pair of numbers a history line records, if it is two comma-separated decimal numbers.
pub open spec fn parse_line(s: Seq<char>) -> Option<(u64, u64)> {
    match two_fields(s) {
        Some((a, b)) => match (parse_u64_spec(a), parse_u64_spec(b)) {
            (Some(x), Some(y)) => Some((x, y)),
            _ => None,
        },
        None => None,
    }
}

/// The history line recording a pair of numbers.
pub open spec fn format_line(a: u64, b: u64) -> Seq<char> {
    decimal(a as nat) + seq![','] + decimal(b as nat)
}

/// The pairs recorded by the parseable lines, in order (unparseable lines are skipped).
pub open spec fn parse_lines(lines: Seq<Seq<char>>) -> Seq<(u64, u64)>
    decreases lines.len(),
{
    if lines.len() == 0 {
        Seq::empty()
    } else {
        let rest = parse_lines(lines.drop_last());
        match parse_line(lines.last()) {
            Some(p) => rest.push(p),
            None => rest,
        }
    }
}

/// The two numbers of a history line.
pub fn parse_pair(line: &str) -> (r: Option<(u64, u64)>)
    ensures
        r == parse_line(line@),
{
    let chars = crate::text::chars_of(line);
    let c1 = match find_comma(&chars, 0) {
        Some(c) => c,
        None => {
            proof {
                assert forall|i: int| !sole_comma(line@, i) by {
                    if 0 <= i < line@.len() {
                        assert(chars@[i] != ',');
                    }
                }
            }
            return None;
        },
    };
    match find_comma(&chars, c1 + 1) {
        Some(c2) => {
            proof {
                lemma_no_sole_comma(line@, c1 as int, c2 as int);
            }
            return None;
        },
        None => {},
    }
    proof {
        assert(comma_free(line@.subrange(0, c1 as int)));
        assert(comma_free(line@.subrange(c1 + 1, line@.len() as int)));
        assert(sole_comma(line@, c1 as int));
        let k = choose|k: int| sole_comma(line@, k);
        lemma_sole_comma_unique(line@, c1 as int, k);
    }
    let first = crate::text::string_from_chars(&crate::text::slice_chars(&chars, 0, c1));
    let second = crate::text::string_from_chars(&crate::text::slice_chars(&chars, c1 + 1, chars.len()));
    match (parse_u64(first.as_str()), parse_u64(second.as_str())) {
        (Some(x), Some(y)) => Some((x, y)),
        _ => None,
    }
}

/// Formats a history line: the two numbers in decimal separated by a comma.
pub fn format_pair(a: u64, b: u64) -> (r: String)
    ensures
        r@ == format_line(a, b),
{
    let x = u64_to_decimal(a);
    let y = u64_to_decimal(b);
    let xc = crate::text::concat(x.as_str(), ",");
    proof {
        reveal_strlit(",");
        assert(xc@ + y@ =~= format_line(a, b));
    }
    crate::text::concat(xc.as_str(), y.as_str())
}

/// Reading back a history line gives the numbers that were written.
pub proof fn law_history_line_round_trip(a: u64, b: u64)
    ensures
        parse_line(format_line(a, b)) == Some((a, b)),
{
    crate::numbers::law_decimal_round_trip(a);
    crate::numbers::law_decimal_round_trip(b);
    let s = format_line(a, b);
    let da = decimal(a as nat);
    let db = decimal(b as nat);
    crate::numbers::lemma_decimal_is_digits(a as nat);
    crate::numbers::lemma_decimal_is_digits(b as nat);
    let i = da.len() as int;
    assert(s.subrange(0, i) =~= da);
    assert(s.subrange(i + 1, s.len() as int) =~= db);
    assert forall|j: int| 0 <= j < da.len() implies da[j] != ',' by {
        assert(crate::numbers::is_digit(da[j]));
    }
    assert forall|j: int| 0 <= j < db.len() implies db[j] != ',' by {
        assert(crate::numbers::is_digit(db[j]));
    }
    assert(sole_comma(s, i));
    let k = choose|k: int| sole_comma(s, k);
    lemma_sole_comma_unique(s, i, k);
}

/// Parse transcription timing history lines, skipping lines that are not two numbers.
pub fn parse_timing_entries(lines: &[String]) -> (r: Vec<TimingEntry>)
    ensures
        r@.map_values(|e: TimingEntry| (e.recording_ms, e.transcription_ms)) == parse_lines(
            lines@.map_values(|l: String| l@),
        ),
{
    let ghost ls = lines@.map_values(|l: String| l@);
    let mut r: Vec<TimingEntry> = Vec::new();
    let mut i: usize = 0;
    while i < lines.len()
        invariant
            i <= lines.len(),
            ls == lines@.map_values(|l: String| l@),
            r@.map_values(|e: TimingEntry| (e.recording_ms, e.transcription_ms)) == parse_lines(ls.take(i as int)),
        decreases lines.len() - i,
    {
        proof {
            assert(ls.take(i as int + 1).drop_last() == ls.take(i as int));
            assert(ls.take(i as int + 1).last() == lines@[i as int]@);
        }
        match parse_pair(lines[i].as_str()) {
            Some((a, b)) => {
                let ghost before = r@;
                r.push(TimingEntry { recording_ms: a, transcription_ms: b });
                proof {
                    assert(r@.map_values(|e: TimingEntry| (e.recording_ms, e.transcription_ms)) =~= before.map_values(
                        |e: TimingEntry| (e.recording_ms, e.transcription_ms),
                    ).push((a, b)));
                }
            },
            None => {},
        }
        i += 1;
    }
    assert(ls.take(lines.len() as int) == ls);
    r
}

/// Parse API timing history lines, skipping lines that are not two numbers.
pub fn parse_api_timing_entries(lines: &[String]) -> (r: Vec<ApiTimingEntry>)
    ensures
        r@.map_values(|e: ApiTimingEntry| (e.text_length, e.api_ms)) == parse_lines(
            lines@.map_values(|l: String| l@),
        ),
{
    let ghost ls = lines@.map_values(|l: String| l@);
    let mut r: Vec<ApiTimingEntry> = Vec::new();
    let mut i: usize = 0;
    while i < lines.len()
        invariant
            i <= lines.len(),
            ls == lines@.map_values(|l: String| l@),
            r@.map_values(|e: ApiTimingEntry| (e.text_length, e.api_ms)) == parse_lines(ls.take(i as int)),
        decreases lines.len() - i,
    {
        proof {
            assert(ls.take(i as int + 1).drop_last() == ls.take(i as int));
            assert(ls.take(i as int + 1).last() == lines@[i as int]@);
        }
        match parse_pair(lines[i].as_str()) {
            Some((a, b)) => {
                let ghost before = r@;
                r.push(ApiTimingEntry { text_length: a, api_ms: b });
                proof {
                    assert(r@.map_values(|e: ApiTimingEntry| (e.text_length, e.api_ms)) =~= before.map_values(
                        |e: ApiTimingEntry| (e.text_length, e.api_ms),
                    ).push((a, b)));
                }
            },
            None => {},
        }
        i += 1;
    }
    assert(ls.take(lines.len() as int) == ls);
    r
}

/// The last `max` items of `s` (all of them when there are fewer).
pub open spec fn last_n<T>(s: Seq<T>, max: int) -> Seq<T> {
    if s.len() > max { s.subrange(s.len() - max, s.len() as int) } else { s }
}

/// The history after recording one more line: the line appended, keeping the last
/// [`MAX_ENTRIES`] lines.
pub fn append_history_line(entries: Vec<String>, line: String) -> (r: Vec<String>)
    ensures
        r@ == last_n(entries@.push(line), MAX_ENTRIES as int),
{
    let mut entries = entries;
    entries.push(line);
    if entries.len() > MAX_ENTRIES {
        let at = entries.len() - MAX_ENTRIES;
        let tail = entries.split_off(at);
        return tail;
    }
    entries
}

/// `x` limited to the range `lo..=hi` (`lo <= hi`).
pub open spec fn clamp(x: int, lo: int, hi: int) -> int {
    if x < lo { lo } else if x > hi { hi } else { x }
}

/// Expected VAD time: 80 ms per second of audio, between 200 ms and 3 s.
pub open spec fn vad_estimate(audio_ms: u64) -> int {
    clamp(audio_ms * 8 / 100, 200, 3000)
}

/// Default duration of the pulsing animation when nothing can be estimated.
pub const FALLBACK_PULSE_MS: u64 = 500;

/// Estimate the VAD time for an audio duration (see [`vad_estimate`]). Computed exactly in
/// integers: below the 3 s cap this is the truncated `f64` product `audio_ms * 0.08`.
pub fn estimate_vad_time(audio_duration_ms: u64) -> (r: u64)
    ensures
        r == vad_estimate(audio_duration_ms),
{
    let estimate: u64 = audio_duration_ms / 100 * 8 + audio_duration_ms % 100 * 8 / 100;
    assert(estimate == audio_duration_ms * 8 / 100) by (nonlinear_arith)
        requires
            estimate == audio_duration_ms / 100 * 8 + audio_duration_ms % 100 * 8 / 100,
    ;
    if estimate < 200 {
        200
    } else if estimate > 3000 {
        3000
    } else {
        estimate
    }
}

/// The text of each line of a history.
pub open spec fn line_views(lines: Seq<String>) -> Seq<Seq<char>> {
    lines.map_values(|l: String| l@)
}

proof fn lemma_line_views_append(lines: Seq<String>, line: String)
    ensures
        line_views(last_n(lines.push(line), MAX_ENTRIES as int)) == last_n(
            line_views(lines).push(line@),
            MAX_ENTRIES as int,
        ),
{
    let a = lines.push(line);
    assert(line_views(a) =~= line_views(lines).push(line@));
    if a.len() > MAX_ENTRIES {
        assert(line_views(a.subrange(a.len() - MAX_ENTRIES, a.len() as int)) =~= line_views(a).subrange(
            a.len() - MAX_ENTRIES,
            a.len() as int,
        ));
    }
}

/// Current wall-clock time in milliseconds since the UNIX epoch (std `SystemTime::now`), or 0
/// when the clock reads earlier than the epoch.
#[verifier::external_body]
fn clock_ms() -> u64 {
    std::time::SystemTime::now().duration_since(std::time::UNIX_EPOCH).map(|d| d.as_millis() as u64).unwrap_or(0)
}

/// The milliseconds from a start to `now`, 0 when `now` is earlier; none without a start.
pub open spec fn elapsed_since(start: Option<u64>, now: u64) -> Option<u64> {
    match start {
        Some(s) => Some(if now >= s { (now - s) as u64 } else { 0 }),
        None => None,
    }
}

/// Transcription timing estimator.
#[derive(Debug)]
pub struct TranscriptionTimer {
    start_time: Option<u64>,
    recording_duration_ms: u64,
}

impl TranscriptionTimer {
    /// When timing started (milliseconds since the UNIX epoch), if it has.
    pub closed spec fn started(&self) -> Option<u64> {
        self.start_time
    }

    /// The recording duration the timer was made for.
    pub closed spec fn recording_ms(&self) -> u64 {
        self.recording_duration_ms
    }

    /// Create a new timer with the recording duration.
    pub fn new(recording_duration_ms: u64) -> (t: TranscriptionTimer)
        ensures
            t.started() is None,
            t.recording_ms() == recording_duration_ms,
    {
        TranscriptionTimer { start_time: None, recording_duration_ms }
    }

    /// Start timing the transcription at `now` (milliseconds since the UNIX epoch).
    pub fn start_at(&mut self, now: u64)
        ensures
            final(self).started() == Some(now),
            final(self).recording_ms() == old(self).recording_ms(),
    {
        self.start_time = Some(now);
    }

    /// Start timing the transcription now (the wall clock, see [`Self::start_at`]).
    pub fn start(&mut self)
        ensures
            exists|now: u64| final(self).started() == Some(now),
            final(self).recording_ms() == old(self).recording_ms(),
    {
        self.start_at(clock_ms());
    }

    /// The recording duration the timer was made for.
    pub fn recording_duration_ms(&self) -> (r: u64)
        ensures
            r == self.recording_ms(),
    {
        self.recording_duration_ms
    }

    /// Milliseconds from the start to `now` (0 when `now` is earlier); `None` when timing never
    /// started.
    pub fn elapsed_ms_at(&self, now: u64) -> (r: Option<u64>)
        ensures
            r == elapsed_since(self.started(), now),
    {
        match self.start_time {
            Some(start) => Some(if now >= start { now - start } else { 0 }),
            None => None,
        }
    }

    /// Milliseconds since timing started, by the wall clock (see [`Self::elapsed_ms_at`]);
    /// `None` when it was never started.
    pub fn elapsed_ms(&self) -> (r: Option<u64>)
        ensures
            exists|now: u64| r == elapsed_since(self.started(), now),
    {
        self.elapsed_ms_at(clock_ms())
    }

    /// Stop timing at `now`: the milliseconds since timing started, and the history with a line
    /// recording the recording and transcription times added (see [`append_history_line`]);
    /// `None` when timing never started.
    pub fn stop_and_log_at(&self, history: Vec<String>, now: u64) -> (r: Option<(u64, Vec<String>)>)
        ensures
            r is Some <==> self.started() is Some,
            r matches Some((elapsed, lines)) ==> Some(elapsed) == elapsed_since(self.started(), now)
                && line_views(lines@) == last_n(
                line_views(history@).push(format_line(self.recording_ms(), elapsed)),
                MAX_ENTRIES as int,
            ),
    {
        let elapsed = match self.elapsed_ms_at(now) {
            Some(e) => e,
            None => return None,
        };
        let line = format_pair(self.recording_duration_ms, elapsed);
        proof {
            lemma_line_views_append(history@, line);
        }
        Some((elapsed, append_history_line(history, line)))
    }

    /// Stop timing now, by the wall clock (see [`Self::stop_and_log_at`]).
    pub fn stop_and_log(&self, history: Vec<String>) -> (r: Option<(u64, Vec<String>)>)
        ensures
            r is Some <==> self.started() is Some,
            exists|now: u64| (r matches Some((elapsed, lines)) ==> Some(elapsed) == #[trigger] elapsed_since(self.started(), now)
                && line_views(lines@) == last_n(
                line_views(history@).push(format_line(self.recording_ms(), elapsed)),
                MAX_ENTRIES as int,
            )),
    {
        let now = clock_ms();
        self.stop_and_log_at(history, now)
    }
}

/// API call timer.
#[derive(Debug)]
pub struct ApiTimer {
    start_time: Option<u64>,
    text_length: u64,
}

impl ApiTimer {
    /// When timing started (milliseconds since the UNIX epoch), if it has.
    pub closed spec fn started(&self) -> Option<u64> {
        self.start_time
    }

    /// The input text length the timer was made for.
    pub closed spec fn length(&self) -> u64 {
        self.text_length
    }

    /// Create a new API timer with the input text length.
    pub fn new(text_length: usize) -> (t: ApiTimer)
        ensures
            t.started() is None,
            t.length() == text_length,
    {
        ApiTimer { start_time: None, text_length: text_length as u64 }
    }

    /// Start timing the API call at `now` (milliseconds since the UNIX epoch).
    pub fn start_at(&mut self, now: u64)
        ensures
            final(self).started() == Some(now),
            final(self).length() == old(self).length(),
    {
        self.start_time = Some(now);
    }

    /// Start timing the API call now (the wall clock, see [`Self::start_at`]).
    pub fn start(&mut self)
        ensures
            exists|now: u64| final(self).started() == Some(now),
            final(self).length() == old(self).length(),
    {
        self.start_at(clock_ms());
    }

    /// The input text length the timer was made for.
    pub fn text_length(&self) -> (r: u64)
        ensures
            r == self.length(),
    {
        self.text_length
    }

    /// Milliseconds from the start to `now` (0 when `now` is earlier); `None` when timing never
    /// started.
    pub fn elapsed_ms_at(&self, now: u64) -> (r: Option<u64>)
        ensures
            r == elapsed_since(self.started(), now),
    {
        match self.start_time {
            Some(start) => Some(if now >= start { now - start } else { 0 }),
            None => None,
        }
    }

    /// Milliseconds since timing started, by the wall clock (see [`Self::elapsed_ms_at`]);
    /// `None` when it was never started.
    pub fn elapsed_ms(&self) -> (r: Option<u64>)
        ensures
            exists|now: u64| r == elapsed_since(self.started(), now),
    {
        self.elapsed_ms_at(clock_ms())
    }

    /// Stop timing at `now`: the milliseconds since timing started, and the history with a line
    /// recording the input length and call time added (see [`append_history_line`]);
    /// `None` when timing never started.
    pub fn stop_and_log_at(&self, history: Vec<String>, now: u64) -> (r: Option<(u64, Vec<String>)>)
        ensures
            r is Some <==> self.started() is Some,
            r matches Some((elapsed, lines)) ==> Some(elapsed) == elapsed_since(self.started(), now)
                && line_views(lines@) == last_n(
                line_views(history@).push(format_line(self.length(), elapsed)),
                MAX_ENTRIES as int,
            ),
    {
        let elapsed = match self.elapsed_ms_at(now) {
            Some(e) => e,
            None => return None,
        };
        let line = format_pair(self.text_length, elapsed);
        proof {
            lemma_line_views_append(history@, line);
        }
        Some((elapsed, append_history_line(history, line)))
    }

    /// Stop timing now, by the wall clock (see [`Self::stop_and_log_at`]).
    pub fn stop_and_log(&self, history: Vec<String>) -> (r: Option<(u64, Vec<String>)>)
        ensures
            r is Some <==> self.started() is Some,
            exists|now: u64| (r matches Some((elapsed, lines)) ==> Some(elapsed) == #[trigger] elapsed_since(self.started(), now)
                && line_views(lines@) == last_n(
                line_views(history@).push(format_line(self.length(), elapsed)),
                MAX_ENTRIES as int,
            )),
    {
        let now = clock_ms();
        self.stop_and_log_at(history, now)
    }
}

} // verus!
