//! Decisions of the dictation pipeline run when a recording stops: which prompt applies, how
//! the text is delivered, what is logged, and what a failure tells the user.
use vstd::prelude::*;
use crate::text::{contains_seq, trimmed};

verus! {

broadcast use vstd::string::group_string_axioms;

/// The notification text for a failed transcription: a hint to start the daemon when the
/// error says it could not be reached, the error itself otherwise.
pub open spec fn failure_notice(error: Seq<char>) -> Seq<char> {
    if contains_seq(error, "Failed to connect"@) || contains_seq(error, "daemon"@) || contains_seq(
        error,
        "No such file or directory"@,
    ) {
        "Daemon not found\nStart with: transcribe-daemon"@
    } else {
        "Transcription failed: "@ + error
    }
}

/// The notification text for a failed transcription (see [`failure_notice`]).
pub fn transcription_failure_notice(error: &str) -> (r: String)
    ensures
        r@ == failure_notice(error@),
{
    if crate::text::str_contains(error, "Failed to connect") || crate::text::str_contains(error, "daemon")
        || crate::text::str_contains(error, "No such file or directory") {
        "Daemon not found\nStart with: transcribe-daemon".to_string()
    } else {
        crate::text::concat("Transcription failed: ", error)
    }
}

/// The prompt requested for LLM processing, from the content of the prompt state file: the
/// trimmed content, unless it is empty or there is no file.
pub fn requested_prompt(file_content: Option<&str>) -> (r: Option<String>)
    ensures
        match file_content {
            Some(c) => if trimmed(c@).len() > 0 { r matches Some(p) && p@ == trimmed(c@) } else { r is None },
            None => r is None,
        },
{
    match file_content {
        Some(c) => {
            let t = crate::text::trim(c);
            if t.as_str().is_empty() { None } else { Some(t) }
        },
        None => None,
    }
}

/// The prompt of a conversation-window exchange: the trimmed content of the prompt state file,
/// or `chat` when there is no file.
pub fn gui_prompt_name(file_content: Option<&str>) -> (r: String)
    ensures
        r@ == match file_content {
            Some(c) => trimmed(c@),
            None => "chat"@,
        },
{
    match file_content {
        Some(c) => crate::text::trim(c),
        None => "chat".to_string(),
    }
}

/// How the final text reaches the user.
#[derive(Debug, Clone, Copy, PartialEq, Eq, Structural)]
pub enum Delivery {
    /// Appended to the chat file
    FileChat,
    /// File chat was asked for but is disabled: an error notification
    FileChatDisabled,
    /// A tool ran: a notification only
    ToolNotification,
    /// Copied, pasted, and the user's clipboard restored
    PasteAndRestore,
    /// Copied to the clipboard only
    ClipboardOnly,
}

/// How the final text is delivered: file chat first, then a tool notification, then the
/// clipboard, pasted when auto-paste is on.
pub fn choose_delivery(file_chat_mode: bool, file_chat_enabled: bool, tool_was_called: bool, auto_paste: bool) -> (d: Delivery)
    ensures
        d == if file_chat_mode {
            if file_chat_enabled { Delivery::FileChat } else { Delivery::FileChatDisabled }
        } else if tool_was_called {
            Delivery::ToolNotification
        } else if auto_paste {
            Delivery::PasteAndRestore
        } else {
            Delivery::ClipboardOnly
        },
{
    if file_chat_mode {
        if file_chat_enabled { Delivery::FileChat } else { Delivery::FileChatDisabled }
    } else if tool_was_called {
        Delivery::ToolNotification
    } else if auto_paste {
        Delivery::PasteAndRestore
    } else {
        Delivery::ClipboardOnly
    }
}

/// Which dictation log an exchange goes to.
#[derive(Debug, Clone, Copy, PartialEq, Eq, Structural)]
pub enum DictationLog {
    NoLog,
    /// The LLM corrections log
    Llm,
    /// The basic dictation log
    Basic,
}

/// The log a dictation goes to: none when logging is off; the LLM log when a prompt was used,
/// that log is on, and the LLM changed the text (ignoring surrounding white space); the basic
/// log when no prompt was used and that log is on; none otherwise.
pub fn dictation_log_choice(
    logging_enabled: bool,
    llm_triggered: bool,
    llm_log_enabled: bool,
    basic_log_enabled: bool,
    original: &str,
    final_text: &str,
) -> (r: DictationLog)
    ensures
        r == if !logging_enabled {
            DictationLog::NoLog
        } else if llm_triggered && llm_log_enabled {
            if trimmed(original@) != trimmed(final_text@) { DictationLog::Llm } else { DictationLog::NoLog }
        } else if !llm_triggered && basic_log_enabled {
            DictationLog::Basic
        } else {
            DictationLog::NoLog
        },
{
    if !logging_enabled {
        return DictationLog::NoLog;
    }
    if llm_triggered && llm_log_enabled {
        let a = crate::text::trim(original);
        let b = crate::text::trim(final_text);
        if crate::text::str_eq(a.as_str(), b.as_str()) { DictationLog::NoLog } else { DictationLog::Llm }
    } else if !llm_triggered && basic_log_enabled {
        DictationLog::Basic
    } else {
        DictationLog::NoLog
    }
}

/// How a transcription is processed after the corrections.
#[derive(Debug)]
pub enum TextProcessing {
    /// Continue the conversation window's chat with this prompt
    Conversation { prompt: String },
    /// Use the text as it is (no prompt was requested)
    Raw,
    /// The text is the clear-history command: reset this prompt's history, deliver nothing
    ClearHistory { prompt: String },
    /// Process the text with this prompt
    Llm { prompt: String },
}

/// How a transcription is processed: in conversation mode, with the requested prompt or
/// `chat`; otherwise without a prompt the text is used as it is, and with one the text either
/// clears that prompt's history (when it is the clear word) or goes to the LLM with it.
/// `prompt_file` is the content of the saved prompt, if any.
pub fn text_processing(
    conversation_mode: bool,
    prompt_file: Option<&str>,
    text: &str,
    llm_config: &crate::config::LlmConfig,
) -> (r: TextProcessing)
    ensures
        conversation_mode ==> (r matches TextProcessing::Conversation { prompt } && prompt@ == match prompt_file {
            Some(c) => trimmed(c@),
            None => "chat"@,
        }),
        !conversation_mode ==> match prompt_file {
            Some(c) if trimmed(c@).len() > 0 => {
                let clear = crate::llm::normalized_command(text@) == crate::llm::normalized_command(
                    llm_config.conversation_history_clear_word@,
                );
                if clear {
                    r matches TextProcessing::ClearHistory { prompt } && prompt@ == trimmed(c@)
                } else {
                    r matches TextProcessing::Llm { prompt } && prompt@ == trimmed(c@)
                }
            },
            _ => r is Raw,
        },
{
    if conversation_mode {
        return TextProcessing::Conversation { prompt: gui_prompt_name(prompt_file) };
    }
    match requested_prompt(prompt_file) {
        None => TextProcessing::Raw,
        Some(prompt) => {
            if crate::llm::is_clear_history_command(text, llm_config) {
                TextProcessing::ClearHistory { prompt }
            } else {
                TextProcessing::Llm { prompt }
            }
        },
    }
}

} // verus!
