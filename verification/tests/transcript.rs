use ccterm::context::{
    extract_assistant_text, extract_user_text, format_history_context, history_context_of,
    latest_assistant_text, latest_assistant_text_uuid, malformed_lines, parse_assistant_turn,
    parse_transcript_line, read_history,
};
use ccterm::json::Json;
use ccterm::types::{Role, TranscriptMessage};

fn message(role: Role, text: &str) -> TranscriptMessage {
    TranscriptMessage { role, text: text.to_string() }
}

const TRANSCRIPT: &str = concat_lines();

const fn concat_lines() -> &'static str {
    "{\"type\":\"user\",\"timestamp\":\"2024-01-01T00:00:00Z\",\"message\":{\"content\":\"hi\"}}\n\
     \n\
     {\"type\":\"summary\",\"message\":{\"content\":\"ignored\"}}\n\
     {\"type\":\"assistant\",\"uuid\":\"u0\",\"timestamp\":\"2024-01-01T00:05:00Z\",\"message\":{\"content\":[{\"type\":\"tool_use\",\"text\":\"skip\"}]}}\n\
     {\"type\":\"assistant\",\"uuid\":\"u1\",\"timestamp\":\"2024-01-01T00:10:00Z\",\"message\":{\"content\":[{\"type\":\"text\",\"text\":\"hel\"},{\"type\":\"tool_use\",\"text\":\"X\"},{\"type\":\"text\",\"text\":\"lo\"}]}}\r\n\
     {\"type\":\"user\",\"timestamp\":\"garbled\",\"message\":{\"content\":[{\"text\":\"a\"},{\"type\":\"image\"},{\"text\":\"b\"}]}}\n\
     not json at all\n\
     {\"type\":\"user\",\"message\":{\"content\":\"   \"}}\n\
     {\"type\":\"assistant\",\"timestamp\":\"2024-01-01T00:20:00Z\",\"message\":{\"content\":\"no id\"}}"
}

#[test]
fn history_holds_user_and_assistant_turns_in_file_order() {
    let history = read_history(TRANSCRIPT, None);
    assert_eq!(
        history,
        vec![
            message(Role::User, "hi"),
            message(Role::Assistant, "hello"),
            message(Role::User, "ab"),
            message(Role::Assistant, "no id"),
        ]
    );
}

#[test]
fn history_of_nothing_is_empty() {
    assert_eq!(read_history("", None), vec![]);
    assert_eq!(read_history("\n\n  \n", Some("1.0")), vec![]);
}

#[test]
fn cutoff_excludes_newer_main_turns() {
    let transcript = "{\"type\":\"user\",\"timestamp\":\"2024-01-01T00:00:00Z\",\"message\":{\"content\":\"hi\"}}\n{\"type\":\"assistant\",\"uuid\":\"u1\",\"timestamp\":\"2024-01-01T00:10:00Z\",\"message\":{\"content\":\"hello\"}}\n";
    let history = read_history(transcript, Some("1704067205.000000"));
    assert_eq!(history, vec![message(Role::User, "hi")]);
    let context = format_history_context(&history).unwrap();
    assert!(context.contains("User: hi\n"));
    assert!(!context.contains("Assistant:"));
}

#[test]
fn cutoff_keeps_a_record_at_the_very_instant() {
    let transcript = "{\"type\":\"user\",\"timestamp\":\"2024-01-01T00:00:05Z\",\"message\":{\"content\":\"at\"}}\n{\"type\":\"user\",\"timestamp\":\"2024-01-01T00:00:05.000000001Z\",\"message\":{\"content\":\"after\"}}\n";
    assert_eq!(
        read_history(transcript, Some("1704067205.000000")),
        vec![message(Role::User, "at")]
    );
}

#[test]
fn unreadable_cutoff_is_no_cutoff_and_unreadable_timestamp_is_kept() {
    assert_eq!(read_history(TRANSCRIPT, Some("yesterday")).len(), 4);
    let history = read_history(TRANSCRIPT, Some("0.0"));
    assert_eq!(history, vec![message(Role::User, "ab")]);
}

#[test]
fn latest_turn_is_the_last_assistant_record_with_text_and_id() {
    assert_eq!(
        latest_assistant_text_uuid(TRANSCRIPT),
        Some(("u1".to_string(), "hello".to_string()))
    );
    assert_eq!(latest_assistant_text_uuid(""), None);
    assert_eq!(
        latest_assistant_text_uuid("{\"type\":\"user\",\"uuid\":\"x\",\"message\":{\"content\":\"q\"}}"),
        None
    );
}

#[test]
fn latest_assistant_text_is_the_last_assistant_message() {
    assert_eq!(latest_assistant_text(TRANSCRIPT), Some("no id".to_string()));
    assert_eq!(latest_assistant_text("{\"type\":\"user\",\"message\":{\"content\":\"q\"}}"), None);
}

#[test]
fn text_extraction_by_role() {
    let parts = Json::parse("[{\"type\":\"text\",\"text\":\"a\"},{\"type\":\"other\",\"text\":\"b\"},{\"text\":\"c\"},{\"text\":5},7]").unwrap();
    assert_eq!(extract_user_text(&parts), Some("abc".to_string()));
    assert_eq!(extract_assistant_text(&parts), Some("a".to_string()));
    let plain = Json::parse("\"plain\"").unwrap();
    assert_eq!(extract_user_text(&plain), Some("plain".to_string()));
    assert_eq!(extract_assistant_text(&plain), Some("plain".to_string()));
    let empty = Json::parse("[]").unwrap();
    assert_eq!(extract_user_text(&empty), None);
    assert_eq!(extract_assistant_text(&Json::parse("{\"text\":\"x\"}").unwrap()), None);
    assert_eq!(extract_user_text(&Json::Null), None);
    assert_eq!(extract_user_text(&Json::parse("\"\"").unwrap()), Some(String::new()));
}

#[test]
fn records_become_messages() {
    let record = Json::parse("{\"type\":\"assistant\",\"uuid\":\"u9\",\"timestamp\":\"1970-01-01T00:00:01Z\",\"message\":{\"content\":\"yo\"}}").unwrap();
    assert_eq!(parse_transcript_line(&record, None), Some(message(Role::Assistant, "yo")));
    assert_eq!(
        parse_transcript_line(&record, Some(1_000_000_000)),
        Some(message(Role::Assistant, "yo"))
    );
    assert_eq!(parse_transcript_line(&record, Some(999_999_999)), None);
    assert_eq!(parse_assistant_turn(&record), Some(("u9".to_string(), "yo".to_string())));
    let other = Json::parse("{\"type\":\"system\",\"message\":{\"content\":\"yo\"}}").unwrap();
    assert_eq!(parse_transcript_line(&other, None), None);
    assert_eq!(parse_transcript_line(&Json::parse("[1]").unwrap(), None), None);
}

#[test]
fn context_block_has_the_fixed_shape() {
    let history = vec![message(Role::User, "hi"), message(Role::Assistant, "hello")];
    let expected = "# Optional Conversation Context\n\nThis file provides background context to help interpret the user's next message.\nYou do not need to focus on it unless it is useful.\n\n## Prior Messages\nUser: hi\nAssistant: hello\n\n";
    assert_eq!(format_history_context(&history), Some(expected.to_string()));
}

#[test]
fn empty_history_has_no_context() {
    assert_eq!(format_history_context(&[]), None);
    assert_eq!(history_context_of("", None), None);
    assert_eq!(history_context_of("{\"type\":\"summary\"}\n", None), None);
}

#[test]
fn context_of_a_transcript_is_stable() {
    let first = history_context_of(TRANSCRIPT, Some("1704067205.0"));
    let second = history_context_of(TRANSCRIPT, Some("1704067205.0"));
    assert_eq!(first, second);
    assert_eq!(first, format_history_context(&read_history(TRANSCRIPT, Some("1704067205.0"))));
    assert!(first.unwrap().ends_with("User: hi\nUser: ab\n\n"));
}

#[test]
fn malformed_lines_are_reported_for_the_log() {
    assert_eq!(malformed_lines(TRANSCRIPT), vec![6]);
    assert_eq!(malformed_lines(""), Vec::<usize>::new());
    assert_eq!(malformed_lines("{}\n\n  \n{\"a\":\nnope\n[]"), vec![3, 4]);
}
