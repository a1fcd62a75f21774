use ccterm::hooks::{
    hook_from_record, parse_hook_line, receive_line, with_trailing_newline, HookError, HookEvent,
};
use ccterm::json::Json;

fn event(name: &str, session: &str, cwd: &str, path: &str) -> HookEvent {
    HookEvent {
        event_name: name.to_string(),
        session_id: session.to_string(),
        cwd: cwd.to_string(),
        transcript_path: path.to_string(),
    }
}

#[test]
fn hook_line_with_transcript_path() {
    let line = "{\"hook_event_name\":\"Stop\",\"session_id\":\"s1\",\"cwd\":\"/base\",\"transcript_path\":\"/base/t.jsonl\"}";
    assert_eq!(parse_hook_line(line), Ok(event("Stop", "s1", "/base", "/base/t.jsonl")));
}

#[test]
fn hook_line_falls_back_to_agent_transcript_path() {
    let line = "{\"hook_event_name\":\"SubagentStop\",\"session_id\":\"s\",\"cwd\":\"/w\",\"agent_transcript_path\":\"/a.jsonl\"}";
    assert_eq!(parse_hook_line(line), Ok(event("SubagentStop", "s", "/w", "/a.jsonl")));
    let null_first = "{\"hook_event_name\":\"Stop\",\"session_id\":\"s\",\"cwd\":\"/w\",\"transcript_path\":null,\"agent_transcript_path\":\"/a.jsonl\"}";
    assert_eq!(parse_hook_line(null_first), Ok(event("Stop", "s", "/w", "/a.jsonl")));
}

#[test]
fn hook_line_prefers_transcript_path() {
    let line = "{\"hook_event_name\":\"Stop\",\"session_id\":\"s\",\"cwd\":\"/w\",\"transcript_path\":\"/t\",\"agent_transcript_path\":\"/a\",\"extra\":[1,2]}";
    assert_eq!(parse_hook_line(line), Ok(event("Stop", "s", "/w", "/t")));
}

#[test]
fn hook_line_errors() {
    assert_eq!(parse_hook_line("not json"), Err(HookError::InvalidJson));
    assert_eq!(parse_hook_line(""), Err(HookError::InvalidJson));
    assert_eq!(parse_hook_line("[]"), Err(HookError::EventName));
    assert_eq!(
        parse_hook_line("{\"hook_event_name\":7,\"session_id\":\"s\",\"cwd\":\"/w\",\"transcript_path\":\"/t\"}"),
        Err(HookError::EventName)
    );
    assert_eq!(
        parse_hook_line("{\"hook_event_name\":\"Stop\",\"cwd\":\"/w\",\"transcript_path\":\"/t\"}"),
        Err(HookError::SessionId)
    );
    assert_eq!(
        parse_hook_line("{\"hook_event_name\":\"Stop\",\"session_id\":\"s\",\"transcript_path\":\"/t\"}"),
        Err(HookError::Cwd)
    );
    assert_eq!(
        parse_hook_line("{\"hook_event_name\":\"Stop\",\"session_id\":\"s\",\"cwd\":\"/w\",\"transcript_path\":5}"),
        Err(HookError::TranscriptPath)
    );
    assert_eq!(
        parse_hook_line("{\"hook_event_name\":\"Stop\",\"session_id\":\"s\",\"cwd\":\"/w\",\"agent_transcript_path\":false}"),
        Err(HookError::TranscriptPath)
    );
    assert_eq!(
        parse_hook_line("{\"hook_event_name\":\"Stop\",\"session_id\":\"s\",\"cwd\":\"/w\"}"),
        Err(HookError::MissingTranscriptPath)
    );
    assert_eq!(HookError::MissingTranscriptPath.message(), "missing transcript_path");
    assert_eq!(HookError::InvalidJson.message(), "failed to parse hook json");
}

#[test]
fn hook_record_takes_the_last_member_of_a_name() {
    let record = Json::Object(vec![
        ("hook_event_name".to_string(), Json::Text("Start".to_string())),
        ("session_id".to_string(), Json::Text("s".to_string())),
        ("cwd".to_string(), Json::Text("/w".to_string())),
        ("transcript_path".to_string(), Json::Text("/t".to_string())),
        ("hook_event_name".to_string(), Json::Text("Stop".to_string())),
    ]);
    assert_eq!(hook_from_record(&record), Ok(event("Stop", "s", "/w", "/t")));
}

#[test]
fn received_lines() {
    assert_eq!(receive_line(""), None);
    assert_eq!(receive_line("  \t\r\n"), None);
    let line = "{\"hook_event_name\":\"Stop\",\"session_id\":\"s\",\"cwd\":\"/w\",\"transcript_path\":\"/t\"}  \r\n";
    assert_eq!(receive_line(line), Some(Ok(event("Stop", "s", "/w", "/t"))));
    assert_eq!(receive_line("oops\n"), Some(Err(HookError::InvalidJson)));
}

#[test]
fn payload_gets_one_trailing_newline() {
    assert_eq!(with_trailing_newline("{}".to_string()), "{}\n");
    assert_eq!(with_trailing_newline("{}\n".to_string()), "{}\n");
    assert_eq!(with_trailing_newline(String::new()), "\n");
    assert_eq!(with_trailing_newline("a\n\n".to_string()), "a\n\n");
    assert_eq!(with_trailing_newline("a\r".to_string()), "a\r\n");
}
