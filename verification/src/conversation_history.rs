//! Conversation history for multi-turn LLM conversations.
//!
//! The history of each prompt lives in its own JSON-lines file; this module decides the file
//! name, the entries to append, and which stored entries are still part of the conversation.
use vstd::prelude::*;
use crate::paths::path_join;

verus! {

broadcast use vstd::string::group_string_axioms;

/// Manages conversation history for multi-turn LLM conversations.
pub struct ConversationHistory {
    history_file: String,
    max_age_seconds: u64,
    max_turns: usize,
}

/// A single entry in the conversation history.
#[derive(Debug, Clone)]
pub struct HistoryEntry {
    /// Unix timestamp in seconds
    pub timestamp: u64,
    /// "user" or "assistant"
    pub role: String,
    pub content: String,
    /// True if this is the first user message with prompt instructions
    pub is_first: bool,
}

/// Message format used when sending history to the LLM.
#[derive(Debug, Clone)]
pub struct HistoryMessage {
    pub role: String,
    pub content: String,
}

/// The name of the history file of a prompt (`default` stands in for an empty name).
pub open spec fn history_file_name(prompt_name: Seq<char>) -> Seq<char> {
    "transcribe-rs-v2-history-"@ + (if prompt_name.len() == 0 { "default"@ } else { prompt_name }) + ".jsonl"@
}

/// The entries whose time stamp is at least `cutoff`, in order.
pub open spec fn entries_since(entries: Seq<HistoryEntry>, cutoff: int) -> Seq<HistoryEntry>
    decreases entries.len(),
{
    if entries.len() == 0 {
        Seq::empty()
    } else {
        let rest = entries_since(entries.drop_last(), cutoff);
        if entries.last().timestamp >= cutoff { rest.push(entries.last()) } else { rest }
    }
}

/// The oldest time stamp still in the conversation at time `now`.
pub open spec fn cutoff(now: int, max_age_seconds: int) -> int {
    if now >= max_age_seconds { now - max_age_seconds } else { 0 }
}

/// Current Unix time in seconds (std `SystemTime::now`), or 0 when the clock reads earlier
/// than the epoch.
#[verifier::external_body]
fn unix_seconds() -> u64 {
    std::time::SystemTime::now().duration_since(std::time::UNIX_EPOCH).map(|d| d.as_secs()).unwrap_or(0)
}

impl ConversationHistory {
    /// The history file.
    pub closed spec fn file(&self) -> Seq<char> {
        self.history_file@
    }

    /// How old an entry may be, in seconds.
    pub closed spec fn max_age(&self) -> u64 {
        self.max_age_seconds
    }

    /// How many turns (user and assistant pairs) are kept.
    pub closed spec fn turns(&self) -> usize {
        self.max_turns
    }

    /// Creates a new conversation history manager.
    ///
    /// `prompt_name` names the prompt (e.g. "clean"); `max_age_minutes` is how many minutes of
    /// history to keep; `max_turns` the maximum number of user and assistant pairs;
    /// `history_dir` the directory of the history files.
    pub fn new(prompt_name: &str, max_age_minutes: u32, max_turns: usize, history_dir: &str) -> (h: ConversationHistory)
        ensures
            h.file() == path_join(history_dir@, history_file_name(prompt_name@)),
            h.max_age() == max_age_minutes * 60,
            h.turns() == max_turns,
    {
        let safe_prompt_name: &str = if prompt_name.is_empty() { "default" } else { prompt_name };
        let a = crate::text::concat("transcribe-rs-v2-history-", safe_prompt_name);
        let name = crate::text::concat(a.as_str(), ".jsonl");
        let history_file = crate::paths::join_path(history_dir, name.as_str());
        ConversationHistory { history_file, max_age_seconds: (max_age_minutes as u64) * 60, max_turns }
    }

    /// The path of the history file.
    pub fn history_file(&self) -> (r: &str)
        ensures
            r@ == self.file(),
    {
        self.history_file.as_str()
    }

    /// Get current Unix timestamp in seconds.
    pub fn current_timestamp() -> u64 {
        unix_seconds()
    }

    /// Keep only the entries written at most the maximum age before `now` (seconds).
    pub fn filter_by_time_at(&self, entries: Vec<HistoryEntry>, now: u64) -> (r: Vec<HistoryEntry>)
        ensures
            r@ == entries_since(entries@, cutoff(now as int, self.max_age() as int)),
    {
        let cut = now.saturating_sub(self.max_age_seconds);
        let ghost es = entries@;
        let mut r: Vec<HistoryEntry> = Vec::new();
        let mut entries = entries;
        let mut rest: Vec<HistoryEntry> = Vec::new();
        // walk the entries from the newest down, then restore chronological order
        while entries.len() > 0
            invariant
                es == entries@ + rest@.reverse(),
                entries_since(es, cut as int) == entries_since(entries@, cut as int) + r@.reverse(),
            decreases entries.len(),
        {
            let e = entries.pop().unwrap();
            let ghost before = entries@;
            proof {
                assert((before.push(e)).drop_last() == before);
            }
            if e.timestamp >= cut {
                r.push(e.clone_entry());
            }
            rest.push(e);
            proof {
                assert(es =~= entries@ + rest@.reverse());
                assert(r@.reverse() =~= (if e.timestamp >= cut { seq![r@.last()] } else { Seq::empty() }) + (if e.timestamp >= cut { r@.drop_last().reverse() } else { r@.reverse() })) by {
                    if e.timestamp >= cut {
                        assert(r@.reverse() =~= seq![r@.last()] + r@.drop_last().reverse());
                    }
                }
            }
        }
        let mut out: Vec<HistoryEntry> = Vec::new();
        while r.len() > 0
            invariant
                entries_since(es, cut as int) == out@ + r@.reverse(),
            decreases r.len(),
        {
            let e = r.pop().unwrap();
            let ghost before = r@;
            out.push(e);
            proof {
                assert(before.push(e).reverse() =~= seq![e] + before.reverse());
            }
        }
        proof {
            assert(out@ =~= entries_since(es, cut as int));
        }
        out
    }

    /// Filter entries by timestamp, keeping only recent messages.
    pub fn filter_by_time(&self, entries: Vec<HistoryEntry>) -> (r: Vec<HistoryEntry>)
        ensures
            exists|now: int| r@ == entries_since(entries@, cutoff(now, self.max_age() as int)),
    {
        let now = Self::current_timestamp();
        self.filter_by_time_at(entries, now)
    }

    /// Limit to max turns (each turn is a user and assistant pair): the most recent
    /// `2 * max_turns` entries.
    pub fn limit_turns(&self, entries: Vec<HistoryEntry>) -> (r: Vec<HistoryEntry>)
        requires
            self.turns() * 2 <= usize::MAX,
        ensures
            r@ == if entries@.len() <= self.turns() * 2 {
                entries@
            } else {
                entries@.subrange(entries@.len() - self.turns() * 2, entries@.len() as int)
            },
    {
        let keep = self.max_turns * 2;
        if entries.len() <= keep {
            return entries;
        }
        let mut entries = entries;
        let start_index = entries.len() - keep;
        entries.split_off(start_index)
    }

    /// The messages to send as history at time `now` (seconds): the recent entries, at most the
    /// last `2 * max_turns`, as role and content.
    pub fn messages_from_entries(&self, entries: Vec<HistoryEntry>, now: u64) -> (r: Vec<HistoryMessage>)
        requires
            self.turns() * 2 <= usize::MAX,
        ensures
            ({
                let kept = entries_since(entries@, cutoff(now as int, self.max_age() as int));
                let limited = if kept.len() <= self.turns() * 2 { kept } else { kept.subrange(kept.len() - self.turns() * 2, kept.len() as int) };
                &&& r@.len() == limited.len()
                &&& forall|i: int| 0 <= i < r@.len() ==> #[trigger] r@[i].role@ == limited[i].role@ && r@[i].content@ == limited[i].content@
            }),
    {
        let kept = self.filter_by_time_at(entries, now);
        let limited = self.limit_turns(kept);
        let mut r: Vec<HistoryMessage> = Vec::new();
        let mut i: usize = 0;
        while i < limited.len()
            invariant
                i <= limited.len(),
                r@.len() == i,
                forall|j: int| 0 <= j < i ==> #[trigger] r@[j].role@ == limited@[j].role@ && r@[j].content@ == limited@[j].content@,
            decreases limited.len() - i,
        {
            r.push(HistoryMessage { role: limited[i].role.clone(), content: limited[i].content.clone() });
            i += 1;
        }
        r
    }

    /// The entry recording a user message written at `now` (seconds since the UNIX epoch); the
    /// caller appends it to the history file.
    pub fn append_user_at(&self, content: &str, is_first: bool, now: u64) -> (e: HistoryEntry)
        ensures
            e.timestamp == now,
            e.role@ == "user"@,
            e.content@ == content@,
            e.is_first == is_first,
    {
        HistoryEntry { timestamp: now, role: "user".to_string(), content: content.to_string(), is_first }
    }

    /// The entry recording a user message, stamped with the current time (see
    /// [`Self::append_user_at`]).
    pub fn append_user(&self, content: &str, is_first: bool) -> (e: HistoryEntry)
        ensures
            e.role@ == "user"@,
            e.content@ == content@,
            e.is_first == is_first,
    {
        self.append_user_at(content, is_first, Self::current_timestamp())
    }

    /// The entry recording an assistant message written at `now` (seconds since the UNIX
    /// epoch); the caller appends it to the history file.
    pub fn append_assistant_at(&self, content: &str, now: u64) -> (e: HistoryEntry)
        ensures
            e.timestamp == now,
            e.role@ == "assistant"@,
            e.content@ == content@,
            !e.is_first,
    {
        HistoryEntry { timestamp: now, role: "assistant".to_string(), content: content.to_string(), is_first: false }
    }

    /// The entry recording an assistant message, stamped with the current time (see
    /// [`Self::append_assistant_at`]).
    pub fn append_assistant(&self, content: &str) -> (e: HistoryEntry)
        ensures
            e.role@ == "assistant"@,
            e.content@ == content@,
            !e.is_first,
    {
        self.append_assistant_at(content, Self::current_timestamp())
    }
}

impl HistoryEntry {
    /// A copy of the entry.
    pub(crate) fn clone_entry(&self) -> (r: HistoryEntry)
        ensures
            r == *self,
    {
        HistoryEntry {
            timestamp: self.timestamp,
            role: self.role.clone(),
            content: self.content.clone(),
            is_first: self.is_first,
        }
    }
}

/// Size of the history file, in bytes, from which old entries are pruned when appending.
pub const PRUNE_THRESHOLD_BYTES: u64 = 1_000_000;

/// Whether a history file of `file_size` bytes is pruned (rewritten with only its recent
/// entries) before the next append.
pub fn should_prune(file_size: u64) -> (r: bool)
    ensures
        r == (file_size >= PRUNE_THRESHOLD_BYTES),
{
    file_size >= PRUNE_THRESHOLD_BYTES
}

} // verus!
