//! The state of a conversation-window chat: its messages, where it is saved, and its Markdown
//! rendering; and the entries of the daily file chat.
use vstd::prelude::*;
use crate::config::opt_view;
use crate::paths::path_join;
use crate::text::trimmed;

verus! {

broadcast use vstd::string::group_string_axioms;

/// An instant with the local offset from UTC at that instant: seconds and nanoseconds since the
/// UNIX epoch, and the offset in seconds east of UTC.
#[derive(Debug, Clone, Copy)]
pub struct Timestamp {
    pub secs: i64,
    pub nanos: u32,
    pub offset_secs: i32,
}

/// The text chrono writes for an instant at a fixed offset in a `strftime` pattern (its
/// `DateTime::format`), when chrono can represent the instant and the offset.
pub uninterp spec fn local_time_text(secs: i64, nanos: u32, offset_secs: i32, pattern: Seq<char>) -> Option<Seq<char>>;

/// The date and time pattern of the conversation's start.
pub open spec fn full_pattern() -> Seq<char> {
    "%Y-%m-%d %H:%M:%S"@
}

/// The time-of-day pattern of each message.
pub open spec fn clock_pattern() -> Seq<char> {
    "%H:%M:%S"@
}

/// The date pattern naming the daily chat file.
pub open spec fn date_pattern() -> Seq<char> {
    "%Y-%m-%d"@
}

/// The pattern naming a saved correction session.
pub open spec fn file_stamp_pattern() -> Seq<char> {
    "%Y-%m-%d_%H-%M-%S"@
}

/// Whether a pattern is one of those used here.
pub open spec fn known_pattern(pattern: Seq<char>) -> bool {
    pattern == full_pattern() || pattern == clock_pattern() || pattern == date_pattern() || pattern == file_stamp_pattern()
}

/// Formats an instant at its offset (chrono `DateTime::from_timestamp`, `FixedOffset::east_opt`,
/// `DateTime::with_timezone`, `DateTime::format`); `None` when chrono cannot represent the
/// instant or the offset.
#[verifier::external_body]
fn format_instant(t: &Timestamp, pattern: &str) -> (r: Option<String>)
    requires
        known_pattern(pattern@),
    ensures
        opt_view(r) == local_time_text(t.secs, t.nanos, t.offset_secs, pattern@),
{
    chrono::DateTime::from_timestamp(t.secs, t.nanos)
        .zip(chrono::FixedOffset::east_opt(t.offset_secs))
        .map(|(d, o)| d.with_timezone(&o).format(pattern).to_string())
}

/// The current instant and local offset (chrono `Local::now`).
#[verifier::external_body]
fn local_now() -> (t: Timestamp) {
    let now = chrono::Local::now();
    Timestamp { secs: now.timestamp(), nanos: now.timestamp_subsec_nanos(), offset_secs: now.offset().local_minus_utc() }
}

/// The text of an instant in a pattern; empty when chrono cannot represent it.
pub open spec fn time_text(t: Timestamp, pattern: Seq<char>) -> Seq<char> {
    match local_time_text(t.secs, t.nanos, t.offset_secs, pattern) {
        Some(s) => s,
        None => Seq::empty(),
    }
}

/// The text of an instant in one of the patterns used here (see [`time_text`]).
pub fn format_time(t: &Timestamp, pattern: &str) -> (r: String)
    requires
        known_pattern(pattern@),
    ensures
        r@ == time_text(*t, pattern@),
{
    match format_instant(t, pattern) {
        Some(s) => s,
        None => String::new(),
    }
}

/// A message of the conversation.
#[derive(Debug, Clone)]
pub struct Message {
    /// "user" or "assistant"
    pub role: String,
    pub content: String,
    pub timestamp: Timestamp,
}

/// A conversation shown in the conversation window.
#[derive(Debug, Clone)]
pub struct ConversationState {
    pub messages: Vec<Message>,
    /// The Markdown file the conversation is saved to
    pub conversation_file: String,
    pub window_open: bool,
}

/// The heading that labels a message: the user's for `user`, the assistant's otherwise.
pub open spec fn role_label(role: Seq<char>) -> Seq<char> {
    if role == "user"@ { "**User:**"@ } else { "**Assistant:**"@ }
}

/// The Markdown block of one message: its label and time, then its content.
pub open spec fn message_block(m: Message) -> Seq<char> {
    role_label(m.role@) + " _"@ + time_text(m.timestamp, clock_pattern()) + "_\n\n"@ + m.content@ + "\n\n"@
}

/// The blocks of the messages, in order.
pub open spec fn message_blocks(ms: Seq<Message>) -> Seq<char>
    decreases ms.len(),
{
    if ms.len() == 0 { Seq::empty() } else { message_blocks(ms.drop_last()) + message_block(ms.last()) }
}

/// The Markdown document of a conversation: a title, when the first message was written (empty
/// without messages), a rule, and each message.
pub open spec fn markdown_of(ms: Seq<Message>) -> Seq<char> {
    let started = if ms.len() > 0 { time_text(ms[0].timestamp, full_pattern()) } else { Seq::empty() };
    "# Conversation\n\n"@ + "_Started: "@ + started + "_\n\n"@ + "---\n\n"@ + message_blocks(ms)
}

/// The (role, content) pairs of the messages, in order.
pub open spec fn context_of(ms: Seq<Message>) -> Seq<(Seq<char>, Seq<char>)> {
    ms.map_values(|m: Message| (m.role@, m.content@))
}

impl ConversationState {
    /// An empty conversation saved to `conversation_file`, with no window open.
    pub fn new(conversation_file: String) -> (s: ConversationState)
        ensures
            s.messages@.len() == 0,
            s.conversation_file@ == conversation_file@,
            !s.window_open,
    {
        ConversationState { messages: Vec::new(), conversation_file, window_open: false }
    }

    /// Add a message written at `at`.
    pub fn add_message_at(&mut self, role: &str, content: String, at: Timestamp)
        ensures
            final(self).messages@.len() == old(self).messages@.len() + 1,
            final(self).messages@.take(old(self).messages@.len() as int) == old(self).messages@,
            final(self).messages@.last().role@ == role@,
            final(self).messages@.last().content@ == content@,
            final(self).messages@.last().timestamp == at,
            final(self).conversation_file == old(self).conversation_file,
            final(self).window_open == old(self).window_open,
    {
        self.messages.push(Message { role: role.to_string(), content, timestamp: at });
        assert(self.messages@.take(old(self).messages@.len() as int) =~= old(self).messages@);
    }

    /// Add a message written now.
    pub fn add_message(&mut self, role: &str, content: String)
        ensures
            final(self).messages@.len() == old(self).messages@.len() + 1,
            final(self).messages@.take(old(self).messages@.len() as int) == old(self).messages@,
            final(self).messages@.last().role@ == role@,
            final(self).messages@.last().content@ == content@,
            final(self).conversation_file == old(self).conversation_file,
            final(self).window_open == old(self).window_open,
    {
        let now = local_now();
        self.add_message_at(role, content, now);
    }

    /// The conversation as a Markdown document (see [`markdown_of`]).
    pub fn markdown(&self) -> (r: String)
        ensures
            r@ == markdown_of(self.messages@),
    {
        let started = if self.messages.len() > 0 {
            format_time(&self.messages[0].timestamp, "%Y-%m-%d %H:%M:%S")
        } else {
            String::new()
        };
        let mut out = crate::text::concat("# Conversation\n\n", "_Started: ");
        out = crate::text::concat(out.as_str(), started.as_str());
        out = crate::text::concat(out.as_str(), "_\n\n");
        out = crate::text::concat(out.as_str(), "---\n\n");
        let ghost header = out@;
        let mut i: usize = 0;
        while i < self.messages.len()
            invariant
                i <= self.messages@.len(),
                out@ == header + message_blocks(self.messages@.take(i as int)),
            decreases self.messages.len() - i,
        {
            let m = &self.messages[i];
            let label = if crate::text::str_eq(m.role.as_str(), "user") { "**User:**" } else { "**Assistant:**" };
            let time = format_time(&m.timestamp, "%H:%M:%S");
            let mut block = crate::text::concat(label, " _");
            block = crate::text::concat(block.as_str(), time.as_str());
            block = crate::text::concat(block.as_str(), "_\n\n");
            block = crate::text::concat(block.as_str(), m.content.as_str());
            block = crate::text::concat(block.as_str(), "\n\n");
            proof {
                assert(self.messages@.take(i as int + 1).drop_last() == self.messages@.take(i as int));
                assert(block@ == message_block(self.messages@[i as int]));
            }
            let ghost before = out@;
            out = crate::text::concat(out.as_str(), block.as_str());
            proof {
                assert(out@ == before + block@);
                assert(header + message_blocks(self.messages@.take(i as int + 1)) =~= header + message_blocks(
                    self.messages@.take(i as int),
                ) + block@);
            }
            i += 1;
        }
        assert(self.messages@.take(self.messages@.len() as int) == self.messages@);
        out
    }

    /// The (role, content) pairs of the conversation, in order, as context for the LLM.
    pub fn get_context_for_llm(&self) -> (r: Vec<(String, String)>)
        ensures
            r@.map_values(|p: (String, String)| (p.0@, p.1@)) == context_of(self.messages@),
    {
        let mut r: Vec<(String, String)> = Vec::new();
        let mut i: usize = 0;
        while i < self.messages.len()
            invariant
                i <= self.messages@.len(),
                r@.map_values(|p: (String, String)| (p.0@, p.1@)) == context_of(self.messages@.take(i as int)),
            decreases self.messages.len() - i,
        {
            let ghost before = r@;
            r.push((self.messages[i].role.clone(), self.messages[i].content.clone()));
            proof {
                assert(r@.map_values(|p: (String, String)| (p.0@, p.1@)) =~= before.map_values(
                    |p: (String, String)| (p.0@, p.1@),
                ).push((self.messages@[i as int].role@, self.messages@[i as int].content@)));
                assert(context_of(self.messages@.take(i as int + 1)) =~= context_of(self.messages@.take(i as int)).push(
                    (self.messages@[i as int].role@, self.messages@[i as int].content@),
                ));
            }
            i += 1;
        }
        assert(self.messages@.take(self.messages@.len() as int) == self.messages@);
        r
    }
}

/// An entry of the daily chat file: the time as a heading, the question and the answer (each
/// without surrounding white space), and a rule.
pub open spec fn chat_entry_text(time: Seq<char>, user: Seq<char>, assistant: Seq<char>) -> Seq<char> {
    "## "@ + time + "\n\n**User:** "@ + trimmed(user) + "\n\n**Assistant:** "@ + trimmed(assistant) + "\n\n---\n\n"@
}

/// The entry appended to the daily chat file for an exchange at `now` (see [`chat_entry_text`]).
pub fn chat_entry(now: &Timestamp, user_text: &str, assistant_text: &str) -> (r: String)
    ensures
        r@ == chat_entry_text(time_text(*now, clock_pattern()), user_text@, assistant_text@),
{
    let time = format_time(now, "%H:%M:%S");
    let user = crate::text::trim(user_text);
    let assistant = crate::text::trim(assistant_text);
    let mut out = crate::text::concat("## ", time.as_str());
    out = crate::text::concat(out.as_str(), "\n\n**User:** ");
    out = crate::text::concat(out.as_str(), user.as_str());
    out = crate::text::concat(out.as_str(), "\n\n**Assistant:** ");
    out = crate::text::concat(out.as_str(), assistant.as_str());
    crate::text::concat(out.as_str(), "\n\n---\n\n")
}

/// The daily chat file for `now`: `YYYY-MM-DD.md` in the chat directory.
pub fn chat_file_path(output_dir: &str, now: &Timestamp) -> (r: String)
    ensures
        r@ == path_join(output_dir@, time_text(*now, date_pattern()) + ".md"@),
{
    let date = format_time(now, "%Y-%m-%d");
    let name = crate::text::concat(date.as_str(), ".md");
    crate::paths::join_path(output_dir, name.as_str())
}

/// The current instant and local offset.
pub fn now() -> (t: Timestamp) {
    local_now()
}

} // verus!
