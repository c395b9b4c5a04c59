use transcribe_rs::conversation_state::{
    chat_entry, chat_file_path, format_time, ConversationState, Timestamp,
};

// 2024-03-05 14:07:09 UTC
const AT: Timestamp = Timestamp { secs: 1_709_647_629, nanos: 0, offset_secs: 0 };
// the same instant one hour east of UTC
const AT_EAST: Timestamp = Timestamp { secs: 1_709_647_629, nanos: 0, offset_secs: 3600 };

#[test]
fn test_conversation_state_creation() {
    let path = "/tmp/conversations/conversation.md".to_string();
    let state = ConversationState::new(path.clone());

    assert_eq!(state.messages.len(), 0);
    assert_eq!(state.conversation_file, path);
    assert_eq!(state.window_open, false);
}

#[test]
fn test_add_message() {
    let mut state = ConversationState::new("/tmp/conversations/conversation.md".to_string());

    state.add_message("user", "Hello".to_string());
    state.add_message("assistant", "Hi there".to_string());

    assert_eq!(state.messages.len(), 2);
    assert_eq!(state.messages[0].role, "user");
    assert_eq!(state.messages[0].content, "Hello");
    assert_eq!(state.messages[1].role, "assistant");
    assert_eq!(state.messages[1].content, "Hi there");
}

#[test]
fn markdown_document() {
    let mut state = ConversationState::new("/tmp/c.md".to_string());
    state.add_message_at("user", "Test question".to_string(), AT);
    state.add_message_at("assistant", "Test answer".to_string(), AT_EAST);
    let md = state.markdown();
    assert!(md.contains("# Conversation"));
    assert!(md.contains("**User:**"));
    assert!(md.contains("Test question"));
    assert!(md.contains("**Assistant:**"));
    assert!(md.contains("Test answer"));
    assert_eq!(
        md,
        "# Conversation\n\n_Started: 2024-03-05 14:07:09_\n\n---\n\n\
         **User:** _14:07:09_\n\nTest question\n\n\
         **Assistant:** _15:07:09_\n\nTest answer\n\n"
    );
}

#[test]
fn markdown_of_empty_conversation() {
    let state = ConversationState::new("/tmp/c.md".to_string());
    assert_eq!(state.markdown(), "# Conversation\n\n_Started: _\n\n---\n\n");
}

#[test]
fn context_pairs() {
    let mut state = ConversationState::new("/tmp/c.md".to_string());
    state.add_message_at("user", "q".to_string(), AT);
    state.add_message_at("assistant", "a".to_string(), AT);
    assert_eq!(
        state.get_context_for_llm(),
        vec![("user".to_string(), "q".to_string()), ("assistant".to_string(), "a".to_string())]
    );
}

#[test]
fn time_formats() {
    assert_eq!(format_time(&AT, "%Y-%m-%d %H:%M:%S"), "2024-03-05 14:07:09");
    assert_eq!(format_time(&AT_EAST, "%H:%M:%S"), "15:07:09");
    assert_eq!(format_time(&AT, "%Y-%m-%d"), "2024-03-05");
    // an offset chrono cannot represent
    let bad = Timestamp { secs: 0, nanos: 0, offset_secs: 100_000 };
    assert_eq!(format_time(&bad, "%H:%M:%S"), "");
}

#[test]
fn daily_chat_file() {
    assert_eq!(chat_file_path("/home/u/chats", &AT), "/home/u/chats/2024-03-05.md");
    assert_eq!(
        chat_entry(&AT, "  What time is it? ", "\nIt is two.\n"),
        "## 14:07:09\n\n**User:** What time is it?\n\n**Assistant:** It is two.\n\n---\n\n"
    );
}
