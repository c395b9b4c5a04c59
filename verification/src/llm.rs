//! The conversation with the LLM: which messages are sent, what history is kept, and how the
//! tool-calling loop proceeds from one model reply to the next.
use vstd::prelude::*;
use crate::config::{opt_view, LlmConfig};
use crate::conversation_history::HistoryMessage;
use crate::tools::{ToolConfig, ToolDefinition, defines};

verus! {

broadcast use vstd::string::group_string_axioms;

/// The system message that opens every conversation.
pub open spec fn system_prompt() -> Seq<char> {
    "You are Kimi, an AI assistant created by Moonshot AI."@
}

/// Most model calls in one completion (each tool round takes one).
pub const MAX_TOOL_ITERATIONS: usize = 5;

/// Tool execution result.
#[derive(Debug, Clone)]
pub struct ToolResult {
    pub success: bool,
    pub message: String,
}

/// Completion result with tool execution tracking.
#[derive(Debug, Clone)]
pub struct CompletionResult {
    pub text: String,
    pub tool_called: bool,
}

/// A tool call the model asked for.
#[derive(Debug, Clone)]
pub struct ToolCallRequest {
    pub id: String,
    /// The function to call
    pub name: String,
    /// Its arguments, as JSON text
    pub arguments: String,
}

/// A chat message as sent to and received from the API.
#[derive(Debug, Clone)]
pub struct ChatMessage {
    pub role: String,
    pub content: Option<String>,
    pub tool_calls: Option<Vec<ToolCallRequest>>,
    pub tool_call_id: Option<String>,
    pub name: Option<String>,
}

/// A message's role and content, when it is a plain message with text.
pub open spec fn plain(m: ChatMessage) -> Option<(Seq<char>, Seq<char>)> {
    match m.content {
        Some(c) => if m.tool_calls is None && m.tool_call_id is None && m.name is None { Some((m.role@, c@)) } else { None },
        None => None,
    }
}

/// A plain message with the given role and content.
fn message(role: &str, content: String) -> (m: ChatMessage)
    ensures
        plain(m) == Some((role@, content@)),
{
    ChatMessage { role: role.to_string(), content: Some(content), tool_calls: None, tool_call_id: None, name: None }
}

/// The first user message: the prompt, then the screen context if any, then the dictation.
pub open spec fn first_user_content(prompt: Seq<char>, transcription: Seq<char>, ocr: Option<Seq<char>>) -> Seq<char> {
    match ocr {
        Some(o) => prompt + "\n\nScreen context (OCR of active window):\n"@ + o + "\n\nUser dictation:\n"@ + transcription,
        None => prompt + "\n\nOriginal dictation:\n"@ + transcription,
    }
}

/// A follow-up user message: the screen context if any, then the dictation.
pub open spec fn follow_up_content(transcription: Seq<char>, ocr: Option<Seq<char>>) -> Seq<char> {
    match ocr {
        Some(o) => "Screen context (OCR of active window):\n"@ + o + "\n\nUser dictation:\n"@ + transcription,
        None => transcription,
    }
}

/// The characters of an optional string slice.
pub open spec fn opt_str(o: Option<&str>) -> Option<Seq<char>> {
    match o {
        Some(s) => Some(s@),
        None => None,
    }
}

/// Concatenation of several texts.
fn cat(parts: &[&str]) -> (r: String)
    ensures
        r@ == parts@.fold_left(Seq::<char>::empty(), |acc: Seq<char>, p: &str| acc + p@),
{
    let mut out = String::new();
    let mut i: usize = 0;
    while i < parts.len()
        invariant
            i <= parts.len(),
            out@ == parts@.take(i as int).fold_left(Seq::<char>::empty(), |acc: Seq<char>, p: &str| acc + p@),
        decreases parts.len() - i,
    {
        proof {
            assert(parts@.take(i as int + 1).drop_last() == parts@.take(i as int));
        }
        out = crate::text::concat(out.as_str(), parts[i]);
        i += 1;
    }
    assert(parts@.take(parts.len() as int) == parts@);
    out
}

/// The content of the first user message.
pub fn first_user_message(prompt: &str, transcription: &str, ocr_context: Option<&str>) -> (r: String)
    ensures
        r@ == first_user_content(prompt@, transcription@, opt_str(ocr_context)),
{
    match ocr_context {
        Some(o) => {
            let r = cat(&[prompt, "\n\nScreen context (OCR of active window):\n", o, "\n\nUser dictation:\n", transcription]);
            proof {
                reveal_with_fuel(Seq::fold_left, 6);
            }
            r
        },
        None => {
            let r = cat(&[prompt, "\n\nOriginal dictation:\n", transcription]);
            proof {
                reveal_with_fuel(Seq::fold_left, 4);
            }
            r
        },
    }
}

/// The content of a follow-up user message.
pub fn follow_up_message(transcription: &str, ocr_context: Option<&str>) -> (r: String)
    ensures
        r@ == follow_up_content(transcription@, opt_str(ocr_context)),
{
    match ocr_context {
        Some(o) => {
            let r = cat(&["Screen context (OCR of active window):\n", o, "\n\nUser dictation:\n", transcription]);
            proof {
                reveal_with_fuel(Seq::fold_left, 5);
            }
            r
        },
        None => transcription.to_string(),
    }
}

/// Whether conversation history is kept for a prompt: the feature is on and the prompt is
/// among those listed.
pub fn is_history_enabled_for_prompt(llm_config: &LlmConfig, prompt_name: &str) -> (r: bool)
    ensures
        r == (llm_config.conversation_history_enabled && exists|i: int|
            0 <= i < llm_config.conversation_history_prompts@.len()
                && #[trigger] llm_config.conversation_history_prompts@[i]@ == prompt_name@),
{
    if !llm_config.conversation_history_enabled {
        return false;
    }
    let prompts = &llm_config.conversation_history_prompts;
    let mut i: usize = 0;
    while i < prompts.len()
        invariant
            i <= prompts.len(),
            prompts@ == llm_config.conversation_history_prompts@,
            llm_config.conversation_history_enabled,
            forall|j: int| 0 <= j < i ==> #[trigger] prompts@[j]@ != prompt_name@,
        decreases prompts.len() - i,
    {
        if crate::text::str_eq(prompts[i].as_str(), prompt_name) {
            assert(llm_config.conversation_history_prompts@[i as int]@ == prompt_name@);
            return true;
        }
        i += 1;
    }
    false
}

/// Messages for a prompt without history: the system message and one user message with the
/// prompt, the screen context if any, and the dictation.
pub fn build_messages_without_history(prompt: &str, transcription: &str, ocr_context: Option<&str>) -> (r: Vec<ChatMessage>)
    ensures
        r@.len() == 2,
        plain(r@[0]) == Some(("system"@, system_prompt())),
        plain(r@[1]) == Some(("user"@, first_user_content(prompt@, transcription@, opt_str(ocr_context)))),
{
    let mut r: Vec<ChatMessage> = Vec::new();
    r.push(message("system", "You are Kimi, an AI assistant created by Moonshot AI.".to_string()));
    r.push(message("user", first_user_message(prompt, transcription, ocr_context)));
    r
}

/// Messages for a prompt with history: the system message; then, when there is no history,
/// one user message with the prompt as without history; otherwise the history messages in
/// order followed by a user message with the screen context if any and the dictation.
pub fn build_messages_with_history(
    prompt: &str,
    transcription: &str,
    history: &[HistoryMessage],
    ocr_context: Option<&str>,
) -> (r: Vec<ChatMessage>)
    ensures
        plain(r@[0]) == Some(("system"@, system_prompt())),
        history@.len() == 0 ==> r@.len() == 2 && plain(r@[1]) == Some(
            ("user"@, first_user_content(prompt@, transcription@, opt_str(ocr_context))),
        ),
        history@.len() > 0 ==> {
            &&& r@.len() == history@.len() + 2
            &&& forall|i: int| 0 <= i < history@.len() ==> plain(#[trigger] r@[i + 1]) == Some((history@[i].role@, history@[i].content@))
            &&& plain(r@[r@.len() - 1]) == Some(("user"@, follow_up_content(transcription@, opt_str(ocr_context))))
        },
{
    let mut r: Vec<ChatMessage> = Vec::new();
    r.push(message("system", "You are Kimi, an AI assistant created by Moonshot AI.".to_string()));
    if history.len() == 0 {
        r.push(message("user", first_user_message(prompt, transcription, ocr_context)));
        return r;
    }
    let mut i: usize = 0;
    while i < history.len()
        invariant
            i <= history.len(),
            r@.len() == i + 1,
            plain(r@[0]) == Some(("system"@, system_prompt())),
            forall|j: int| 0 <= j < i ==> plain(#[trigger] r@[j + 1]) == Some((history@[j].role@, history@[j].content@)),
        decreases history.len() - i,
    {
        r.push(message(history[i].role.as_str(), history[i].content.clone()));
        i += 1;
    }
    r.push(message("user", follow_up_message(transcription, ocr_context)));
    r
}

/// The user message stored in the history after an exchange: the prompt and dictation when it
/// opens the conversation, the dictation alone otherwise.
pub fn history_user_message(prompt: &str, transcription: &str, is_first: bool) -> (r: String)
    ensures
        r@ == if is_first { first_user_content(prompt@, transcription@, None) } else { transcription@ },
{
    if is_first {
        first_user_message(prompt, transcription, None)
    } else {
        transcription.to_string()
    }
}


/// The content of a tool call: identifier, function name and arguments.
pub open spec fn call_view(c: ToolCallRequest) -> (Seq<char>, Seq<char>, Seq<char>) {
    (c.id@, c.name@, c.arguments@)
}

/// The contents of a list of tool calls.
pub open spec fn calls_view(cs: Seq<ToolCallRequest>) -> Seq<(Seq<char>, Seq<char>, Seq<char>)> {
    cs.map_values(|c: ToolCallRequest| call_view(c))
}

/// A copy of a tool call.
fn copy_call(c: &ToolCallRequest) -> (r: ToolCallRequest)
    ensures
        call_view(r) == call_view(*c),
{
    ToolCallRequest { id: c.id.clone(), name: c.name.clone(), arguments: c.arguments.clone() }
}

/// A copy of a list of tool calls.
fn copy_calls(cs: &Vec<ToolCallRequest>) -> (r: Vec<ToolCallRequest>)
    ensures
        calls_view(r@) == calls_view(cs@),
{
    let mut r: Vec<ToolCallRequest> = Vec::new();
    let mut i: usize = 0;
    while i < cs.len()
        invariant
            i <= cs.len(),
            calls_view(r@) == calls_view(cs@.take(i as int)),
        decreases cs.len() - i,
    {
        let ghost before = r@;
        r.push(copy_call(&cs[i]));
        proof {
            assert(calls_view(r@) =~= calls_view(before).push(call_view(cs@[i as int])));
            assert(calls_view(cs@.take(i as int + 1)) =~= calls_view(cs@.take(i as int)).push(call_view(cs@[i as int])));
        }
        i += 1;
    }
    assert(cs@.take(cs.len() as int) == cs@);
    r
}

/// A reply of the model: its message and why it stopped.
#[derive(Debug, Clone)]
pub struct ModelReply {
    pub message: ChatMessage,
    pub finish_reason: Option<String>,
}

/// What to do after a model reply.
#[derive(Debug)]
pub enum LoopStep {
    /// Execute these tool calls, add each result with `add_tool_result`, then send the
    /// messages again (while `can_send` holds).
    CallTools { calls: Vec<ToolCallRequest> },
    /// The completion is done.
    Done(CompletionResult),
    /// The reply had no tool calls and no content.
    Unexpected { iteration: usize, finish_reason: Option<String> },
}

/// The tool-calling loop of one completion: the messages to send, how many model calls have
/// been made, and whether a tool was called.
pub struct ToolLoop {
    messages: Vec<ChatMessage>,
    iteration: usize,
    tool_was_called: bool,
}

/// Whether a reply asks for tool calls.
pub open spec fn asks_for_tools(finish_reason: Option<String>) -> bool {
    match finish_reason {
        Some(f) => f@ == "tool_calls"@,
        None => false,
    }
}

impl ToolLoop {
    /// The messages to send next.
    pub closed spec fn sent(&self) -> Seq<ChatMessage> {
        self.messages@
    }

    /// How many model calls have asked for tools so far.
    pub closed spec fn rounds(&self) -> nat {
        self.iteration as nat
    }

    /// Whether a tool has been called.
    pub closed spec fn called(&self) -> bool {
        self.tool_was_called
    }

    /// Well-formedness: a tool has been called exactly when a round has been made, and no more
    /// rounds than allowed.
    pub closed spec fn wf(&self) -> bool {
        &&& self.tool_was_called == (self.iteration > 0)
        &&& self.iteration <= MAX_TOOL_ITERATIONS
    }

    /// Start the loop with the conversation's messages.
    pub fn new(messages: Vec<ChatMessage>) -> (l: ToolLoop)
        ensures
            l.wf(),
            l.sent() == messages@,
            l.rounds() == 0,
            !l.called(),
    {
        ToolLoop { messages, iteration: 0, tool_was_called: false }
    }

    /// The messages to send.
    pub fn messages(&self) -> (r: &Vec<ChatMessage>)
        ensures
            r@ == self.sent(),
    {
        &self.messages
    }

    /// Whether another model call may be made.
    pub fn can_send(&self) -> (r: bool)
        ensures
            r == (self.rounds() < MAX_TOOL_ITERATIONS),
    {
        self.iteration < MAX_TOOL_ITERATIONS
    }

    /// Decide what follows a model reply. A reply whose finish reason is `tool_calls` is added to
    /// the messages and its tool calls (possibly none) are to be executed; otherwise its content
    /// ends the completion, and a reply without content is unexpected.
    pub fn on_reply(&mut self, reply: ModelReply) -> (step: LoopStep)
        requires
            old(self).wf(),
            old(self).rounds() < MAX_TOOL_ITERATIONS,
        ensures
            final(self).wf(),
            asks_for_tools(reply.finish_reason) ==> {
                &&& final(self).sent() == old(self).sent().push(reply.message)
                &&& final(self).rounds() == old(self).rounds() + 1
                &&& final(self).called()
                &&& step matches LoopStep::CallTools { calls } && calls_view(calls@) == match reply.message.tool_calls {
                    Some(cs) => calls_view(cs@),
                    None => Seq::empty(),
                }
            },
            !asks_for_tools(reply.finish_reason) ==> {
                &&& *final(self) == *old(self)
                &&& match reply.message.content {
                    Some(c) => step matches LoopStep::Done(result) && result.text@ == c@ && result.tool_called == old(self).called(),
                    None => step matches LoopStep::Unexpected { iteration, finish_reason } && iteration == old(self).rounds()
                        && opt_view(finish_reason) == opt_view(reply.finish_reason),
                }
            },
    {
        let asks = match &reply.finish_reason {
            Some(f) => crate::text::str_eq(f.as_str(), "tool_calls"),
            None => false,
        };
        if asks {
            let calls = match &reply.message.tool_calls {
                Some(cs) => copy_calls(cs),
                None => Vec::new(),
            };
            proof {
                if reply.message.tool_calls is None {
                    assert(calls_view(calls@) =~= Seq::empty());
                }
            }
            self.messages.push(reply.message);
            self.iteration = self.iteration + 1;
            self.tool_was_called = true;
            return LoopStep::CallTools { calls };
        }
        match reply.message.content {
            Some(c) => LoopStep::Done(CompletionResult { text: c, tool_called: self.tool_was_called }),
            None => LoopStep::Unexpected { iteration: self.iteration, finish_reason: reply.finish_reason },
        }
    }

    /// Add the result of a tool call to the messages, as a `tool` message answering the call.
    pub fn add_tool_result(&mut self, call: &ToolCallRequest, content: String)
        ensures
            final(self).rounds() == old(self).rounds(),
            final(self).called() == old(self).called(),
            final(self).wf() == old(self).wf(),
            final(self).sent().len() == old(self).sent().len() + 1,
            final(self).sent().take(old(self).sent().len() as int) == old(self).sent(),
            ({
                let m = final(self).sent().last();
                &&& m.role@ == "tool"@
                &&& opt_view(m.content) == Some(content@)
                &&& opt_view(m.tool_call_id) == Some(call.id@)
                &&& opt_view(m.name) == Some(call.name@)
                &&& m.tool_calls is None
            }),
    {
        let m = ChatMessage {
            role: "tool".to_string(),
            content: Some(content),
            tool_calls: None,
            tool_call_id: Some(call.id.clone()),
            name: Some(call.name.clone()),
        };
        self.messages.push(m);
        proof {
            assert(self.messages@.take(old(self).messages@.len() as int) =~= old(self).messages@);
        }
    }
}

/// A completion reports a tool call exactly when some reply before the final one asked for
/// tools, and the loop makes at most the allowed number of tool rounds: in every reachable
/// loop state the flag agrees with the number of rounds.
pub proof fn law_tool_flag_matches_rounds(l: ToolLoop)
    requires
        l.wf(),
    ensures
        l.called() == (l.rounds() > 0),
        l.rounds() <= MAX_TOOL_ITERATIONS,
{
}


/// The letters, digits and white space of `s`, in order.
pub open spec fn word_chars(s: Seq<char>) -> Seq<char>
    decreases s.len(),
{
    if s.len() == 0 {
        Seq::empty()
    } else {
        let rest = word_chars(s.drop_last());
        let c = s.last();
        if crate::text::is_alphanumeric(c) || crate::text::is_whitespace(c) { rest.push(c) } else { rest }
    }
}

/// A spoken command normalised for comparison: punctuation removed, lower-cased, and words
/// separated by single spaces.
pub open spec fn normalized_command(s: Seq<char>) -> Seq<char> {
    crate::text::collapse_spaces(crate::text::lowercase(word_chars(s)))
}

/// Normalise a spoken command (see [`normalized_command`]).
pub fn normalize_command(s: &str) -> (r: Vec<char>)
    ensures
        r@ == normalized_command(s@),
{
    let chars = crate::text::chars_of(s);
    let mut kept: Vec<char> = Vec::new();
    let mut i: usize = 0;
    while i < chars.len()
        invariant
            i <= chars.len(),
            chars@ == s@,
            kept@ == word_chars(chars@.take(i as int)),
        decreases chars.len() - i,
    {
        let c = chars[i];
        proof {
            assert(chars@.take(i as int + 1).drop_last() == chars@.take(i as int));
        }
        if crate::text::char_is_alphanumeric(c) || crate::text::char_is_whitespace(c) {
            kept.push(c);
        }
        i += 1;
    }
    assert(chars@.take(chars.len() as int) == chars@);
    let kept_str = crate::text::string_from_chars(&kept);
    let lower = crate::text::to_lowercase(kept_str.as_str());
    crate::text::collapse_whitespace(&crate::text::chars_of(lower.as_str()))
}

/// Whether the dictated text is the configured clear-history word, compared after
/// normalisation (case, punctuation and extra spaces ignored).
pub fn is_clear_history_command(text: &str, llm_config: &LlmConfig) -> (r: bool)
    ensures
        r == (normalized_command(text@) == normalized_command(llm_config.conversation_history_clear_word@)),
{
    let a = normalize_command(text);
    let b = normalize_command(llm_config.conversation_history_clear_word.as_str());
    let sa = crate::text::string_from_chars(&a);
    let sb = crate::text::string_from_chars(&b);
    crate::text::str_eq(sa.as_str(), sb.as_str())
}

/// The tools a prompt may use: none when the prompt is not mapped to a tool set, when that set
/// does not exist, or when it is empty; otherwise the set's tool names.
pub open spec fn prompt_tools(config: LlmConfig, prompt: Seq<char>) -> Option<Seq<Seq<char>>> {
    if config.prompt_tool_mapping@.contains_key(prompt) {
        let set = config.prompt_tool_mapping@[prompt]@;
        if config.tool_sets@.contains_key(set) && config.tool_sets@[set]@.len() > 0 {
            Some(config.tool_sets@[set]@.map_values(|n: String| n@))
        } else {
            None
        }
    } else {
        None
    }
}

/// The tools a prompt may use (see [`prompt_tools`]).
pub fn tools_for_prompt(config: &LlmConfig, prompt_name: &str) -> (r: Option<Vec<String>>)
    ensures
        match r {
            Some(names) => prompt_tools(*config, prompt_name@) == Some(names@.map_values(|n: String| n@)),
            None => prompt_tools(*config, prompt_name@) is None,
        },
{
    let set = match config.prompt_tool_mapping.get(prompt_name) {
        Some(s) => s,
        None => return None,
    };
    let names = match config.tool_sets.get(set.as_str()) {
        Some(n) => n,
        None => return None,
    };
    if names.len() == 0 {
        return None;
    }
    let mut r: Vec<String> = Vec::new();
    let mut i: usize = 0;
    while i < names.len()
        invariant
            i <= names@.len(),
            r@.len() == i,
            forall|j: int| 0 <= j < i ==> #[trigger] r@[j]@ == names@[j]@,
        decreases names.len() - i,
    {
        r.push(names[i].clone());
        i += 1;
    }
    assert(r@.map_values(|n: String| n@) =~= names@.map_values(|n: String| n@));
    Some(r)
}

/// The API key a line of the key file sets: the value of a `GROQ_API_KEY=` line (white space
/// around the line and the value, and quotes around the value, removed), when not empty.
pub open spec fn key_of_line(line: Seq<char>) -> Option<Seq<char>> {
    let t = crate::text::trimmed(line);
    let prefix = "GROQ_API_KEY="@;
    if crate::text::is_prefix(prefix, t) {
        let v = crate::text::trim_matches_char(
            crate::text::trim_matches_char(crate::text::trimmed(t.subrange(prefix.len() as int, t.len() as int)), '"'),
            '\'',
        );
        if v.len() > 0 { Some(v) } else { None }
    } else {
        None
    }
}

/// The first key the lines set, in order.
pub open spec fn first_key(lines: Seq<Seq<char>>) -> Option<Seq<char>>
    decreases lines.len(),
{
    if lines.len() == 0 {
        None
    } else {
        match key_of_line(lines[0]) {
            Some(k) => Some(k),
            None => first_key(lines.drop_first()),
        }
    }
}

/// The key a line sets (see [`key_of_line`]).
fn line_key(line: &str) -> (r: Option<String>)
    ensures
        crate::config::opt_view(r) == key_of_line(line@),
{
    let t = crate::text::trim(line);
    match crate::text::strip_prefix(t.as_str(), "GROQ_API_KEY=") {
        Some(rest) => {
            proof {
                reveal_strlit("GROQ_API_KEY=");
            }
            let v = crate::text::trim(rest.as_str());
            let v = crate::text::trim_char(v.as_str(), '"');
            let v = crate::text::trim_char(v.as_str(), '\'');
            if v.as_str().is_empty() { None } else { Some(v) }
        },
        None => None,
    }
}

/// The Groq API key set in the content of the key file: the first non-empty value of a
/// `GROQ_API_KEY=` line (see [`key_of_line`]), if any.
pub fn parse_api_key(env_content: &str) -> (r: Option<String>)
    ensures
        crate::config::opt_view(r) == first_key(crate::text::split_lines(env_content@)),
{
    let lines = crate::text::lines_of(env_content);
    let ghost ls = crate::text::string_views(lines@);
    assert(ls.subrange(0, ls.len() as int) == ls);
    let mut i: usize = 0;
    while i < lines.len()
        invariant
            i <= lines@.len(),
            ls == crate::text::string_views(lines@),
            ls == crate::text::split_lines(env_content@),
            first_key(ls) == first_key(ls.subrange(i as int, ls.len() as int)),
        decreases lines.len() - i,
    {
        let k = line_key(lines[i].as_str());
        proof {
            assert(ls.subrange(i as int, ls.len() as int)[0] == lines@[i as int]@);
            assert(ls.subrange(i as int, ls.len() as int).drop_first() =~= ls.subrange(i as int + 1, ls.len() as int));
        }
        if k.is_some() {
            return k;
        }
        i += 1;
    }
    None
}

/// The API key from the key file at `env_path` with the given content, or the error naming the
/// file when it sets none.
pub fn api_key_from_env_file(env_path: &str, env_content: &str) -> (r: Result<String, String>)
    ensures
        match first_key(crate::text::split_lines(env_content@)) {
            Some(k) => r matches Ok(key) && key@ == k,
            None => r matches Err(e) && e@ == "GROQ_API_KEY not found in .env file at "@ + env_path@,
        },
{
    match parse_api_key(env_content) {
        Some(k) => Ok(k),
        None => Err(crate::text::concat("GROQ_API_KEY not found in .env file at ", env_path)),
    }
}

/// The Groq chat client's configuration: its API key and the tools it offers the model (the
/// HTTP connection itself lives with the caller).
pub struct GroqClient {
    api_key: String,
    tools: Vec<ToolConfig>,
}

impl GroqClient {
    /// A client with the given API key and tools.
    pub fn new(api_key: String, tools: Vec<ToolConfig>) -> (c: GroqClient)
        ensures
            c.key() == api_key@,
            c.tool_list() == tools@,
    {
        GroqClient { api_key, tools }
    }

    /// The API key.
    pub closed spec fn key(&self) -> Seq<char> {
        self.api_key@
    }

    /// The tools offered to the model.
    pub closed spec fn tool_list(&self) -> Seq<ToolConfig> {
        self.tools@
    }

    /// The API key.
    pub fn api_key(&self) -> (r: &str)
        ensures
            r@ == self.key(),
    {
        self.api_key.as_str()
    }

    /// The tools offered to the model.
    pub fn tools(&self) -> (r: &Vec<ToolConfig>)
        ensures
            r@ == self.tool_list(),
    {
        &self.tools
    }

    /// The definitions of the client's tools, in order, as sent to the API.
    pub fn create_tools_from_config(&self) -> (r: Vec<ToolDefinition>)
        ensures
            r@.len() == self.tool_list().len(),
            forall|i: int| 0 <= i < r@.len() ==> defines(#[trigger] r@[i], self.tool_list()[i]),
    {
        crate::tools::tool_definitions(self.tools.as_slice())
    }

    /// The tool a call names (see [`crate::tools::find_tool`]).
    pub fn tool_named(&self, function_name: &str) -> (r: Result<&ToolConfig, String>)
        ensures
            match r {
                Ok(t) => exists|i: int| 0 <= i < self.tool_list().len() && self.tool_list()[i] == *t
                    && t.name@ == function_name@
                    && forall|j: int| 0 <= j < i ==> #[trigger] self.tool_list()[j].name@ != function_name@,
                Err(e) => e@ == "Unknown tool: "@ + function_name@
                    && forall|j: int| 0 <= j < self.tool_list().len() ==> #[trigger] self.tool_list()[j].name@ != function_name@,
            },
    {
        match crate::tools::find_tool(self.tools.as_slice(), function_name) {
            Ok(i) => Ok(&self.tools[i]),
            Err(e) => Err(e),
        }
    }
}

} // verus!
