use ccterm::context::latest_assistant_text_uuid;
use ccterm::coordinator::{
    ConversationKey, Coordinator, Delivery, HookAction, IncomingAction, PendingSend, SendStep,
    SessionEntry,
};
use ccterm::hooks::parse_hook_line;
use ccterm::settings::plan_thread_context;
use ccterm::types::{IncomingMessage, OutgoingMessage};

fn incoming(text: &str, conversation: &str, thread: Option<&str>, ts: Option<&str>) -> IncomingMessage {
    IncomingMessage {
        text: text.to_string(),
        conversation_id: conversation.to_string(),
        thread_id: thread.map(|t| t.to_string()),
        timestamp: ts.map(|t| t.to_string()),
    }
}

fn main_key(conversation: &str) -> ConversationKey {
    ConversationKey { conversation_id: conversation.to_string(), thread_id: None }
}

fn stop_hook(cwd: &str, transcript: &str) -> String {
    format!(
        "{{\"hook_event_name\":\"Stop\",\"session_id\":\"s1\",\"cwd\":\"{}\",\"transcript_path\":\"{}\"}}",
        cwd, transcript
    )
}

const TRANSCRIPT: &str = "{\"type\":\"user\",\"timestamp\":\"2024-01-01T00:00:00Z\",\"message\":{\"content\":\"hi\"}}\n{\"type\":\"assistant\",\"uuid\":\"u1\",\"timestamp\":\"2024-01-01T00:00:01Z\",\"message\":{\"content\":\"hello\"}}\n";

fn started(c: &mut Coordinator, msg: &IncomingMessage, session: &str) -> String {
    match c.handle_incoming(msg) {
        IncomingAction::Start { key, workspace_dir, text } => {
            assert_eq!(text, msg.text);
            c.session_started(&key, session, &workspace_dir);
            workspace_dir
        }
        other => panic!("expected a start, got {:?}", other),
    }
}

fn deliver(c: &mut Coordinator, line: &str, transcript: &str) -> Option<Delivery> {
    let hook = parse_hook_line(line).unwrap();
    match c.handle_hook(&hook) {
        HookAction::ReadTranscript { key, transcript_path } => {
            assert_eq!(transcript_path, hook.transcript_path);
            let due = c.plan_delivery(&key, latest_assistant_text_uuid(transcript));
            if let Some(delivery) = &due {
                c.delivery_succeeded(&key, &delivery.turn_id);
            }
            due
        }
        _ => None,
    }
}

#[test]
fn main_channel_happy_path() {
    let mut c = Coordinator::new("/base", "hooks/events.jsonl");
    let msg = incoming("hi", "C1", None, None);
    assert_eq!(
        c.handle_incoming(&msg),
        IncomingAction::Start { key: main_key("C1"), workspace_dir: "/base".to_string(), text: "hi".to_string() }
    );
    assert_eq!(c.hook_path_for_cwd("/base"), "/base/hooks/events.jsonl");
    assert!(c.needs_hook_receiver("/base"));
    c.hook_receiver_started("/base", "/base/hooks/events.jsonl");
    assert!(!c.needs_hook_receiver("/base"));
    c.session_started(&main_key("C1"), "ccterm-1700000000", "/base");
    assert_eq!(
        c.handle_incoming(&msg),
        IncomingAction::Send { session_name: "ccterm-1700000000".to_string(), text: "hi".to_string() }
    );
    let due = deliver(&mut c, &stop_hook("/base", "/base/logs/transcript.jsonl"), TRANSCRIPT);
    assert_eq!(
        due,
        Some(Delivery {
            turn_id: "u1".to_string(),
            message: OutgoingMessage { text: "hello".to_string(), conversation_id: "C1".to_string(), thread_id: None },
        })
    );
    assert_eq!(
        c.session(&main_key("C1")),
        Some(SessionEntry {
            session_name: "ccterm-1700000000".to_string(),
            workspace_dir: "/base".to_string(),
            last_transcript_path: Some("/base/logs/transcript.jsonl".to_string()),
            last_delivered_turn_id: Some("u1".to_string()),
        })
    );
}

#[test]
fn duplicate_hook_delivers_once() {
    let mut c = Coordinator::new("/base", "hooks/events.jsonl");
    started(&mut c, &incoming("hi", "C1", None, None), "s");
    let line = stop_hook("/base", "/t");
    assert!(deliver(&mut c, &line, TRANSCRIPT).is_some());
    assert_eq!(deliver(&mut c, &line, TRANSCRIPT), None);
    assert_eq!(deliver(&mut c, &line, TRANSCRIPT), None);
    let longer = format!("{}{}", TRANSCRIPT, "{\"type\":\"assistant\",\"uuid\":\"u2\",\"message\":{\"content\":\"more\"}}\n");
    assert_eq!(deliver(&mut c, &line, &longer).unwrap().turn_id, "u2");
    assert_eq!(deliver(&mut c, &line, &longer), None);
}

#[test]
fn failed_delivery_is_due_again() {
    let mut c = Coordinator::new("/base", "hooks/events.jsonl");
    started(&mut c, &incoming("hi", "C1", None, None), "s");
    let hook = parse_hook_line(&stop_hook("/base", "/t")).unwrap();
    for _ in 0..2 {
        match c.handle_hook(&hook) {
            HookAction::ReadTranscript { key, .. } => {
                let due = c.plan_delivery(&key, latest_assistant_text_uuid(TRANSCRIPT));
                assert_eq!(due.unwrap().turn_id, "u1");
            }
            other => panic!("{:?}", other),
        }
    }
    assert_eq!(c.session(&main_key("C1")).unwrap().last_delivered_turn_id, None);
}

#[test]
fn transcript_without_a_turn_has_nothing_due() {
    let mut c = Coordinator::new("/base", "hooks/events.jsonl");
    started(&mut c, &incoming("hi", "C1", None, None), "s");
    assert_eq!(deliver(&mut c, &stop_hook("/base", "/t"), ""), None);
    assert_eq!(c.session(&main_key("C1")).unwrap().last_transcript_path, Some("/t".to_string()));
    assert_eq!(c.plan_delivery(&main_key("C9"), Some(("u".to_string(), "x".to_string()))), None);
    c.delivery_succeeded(&main_key("C9"), "u");
    assert_eq!(c.session(&main_key("C9")), None);
}

#[test]
fn thread_seeding() {
    let mut c = Coordinator::new("/base", "hooks/events.jsonl");
    started(&mut c, &incoming("hi", "C1", None, None), "main");
    let thread = incoming("follow up", "C1", Some("1700.123"), Some("1704067205.000000"));
    assert_eq!(c.thread_context_source(&thread), None);
    assert!(deliver(&mut c, &stop_hook("/base", "/t.jsonl"), TRANSCRIPT).is_some());
    let key = ConversationKey { conversation_id: "C1".to_string(), thread_id: Some("1700.123".to_string()) };
    assert_eq!(
        c.handle_incoming(&thread),
        IncomingAction::Start {
            key: key.clone(),
            workspace_dir: "/base/.ccterm/threads/1700_123".to_string(),
            text: "follow up".to_string(),
        }
    );
    assert_eq!(
        c.hook_path_for_cwd("/base/.ccterm/threads/1700_123"),
        "/base/.ccterm/threads/1700_123/hooks/events.jsonl"
    );
    let (path, cutoff) = c.thread_context_source(&thread).unwrap();
    assert_eq!(path, "/t.jsonl");
    assert_eq!(cutoff, Some("1704067205.000000".to_string()));
    let context = plan_thread_context(Some(TRANSCRIPT), cutoff.as_deref(), false).unwrap();
    assert!(context.contains("User: hi\n"));
    assert!(context.contains("Assistant: hello\n"));
    c.session_started(&key, "thread-session", "/base/.ccterm/threads/1700_123");
    assert_eq!(
        c.handle_incoming(&thread),
        IncomingAction::Send { session_name: "thread-session".to_string(), text: "follow up".to_string() }
    );
    let due = deliver(&mut c, &stop_hook("/base/.ccterm/threads/1700_123", "/thread.jsonl"), TRANSCRIPT).unwrap();
    assert_eq!(due.message.thread_id, Some("1700.123".to_string()));
    assert_eq!(due.message.conversation_id, "C1");
    assert_eq!(c.session(&main_key("C1")).unwrap().last_transcript_path, Some("/t.jsonl".to_string()));
}

#[test]
fn thread_without_a_channel_session_has_no_context() {
    let mut c = Coordinator::new("/base", "hooks/events.jsonl");
    let thread = incoming("q", "C1", Some("t"), Some("1.0"));
    assert_eq!(c.thread_context_source(&thread), None);
    started(&mut c, &thread, "t-session");
    assert_eq!(c.thread_context_source(&thread), None);
    assert_eq!(c.session(&main_key("C1")), None);
}

#[test]
fn unknown_hook_workspace() {
    let mut c = Coordinator::new("/base", "hooks/events.jsonl");
    let early = parse_hook_line(&stop_hook("/base", "/t")).unwrap();
    assert_eq!(c.handle_hook(&early), HookAction::Unregistered);
    started(&mut c, &incoming("hi", "C1", None, None), "s");
    let before = c.session(&main_key("C1"));
    let stray = parse_hook_line(&stop_hook("/tmp/not-registered", "/t")).unwrap();
    assert_eq!(c.handle_hook(&stray), HookAction::Unregistered);
    assert_eq!(c.session(&main_key("C1")), before);
}

#[test]
fn other_events_are_ignored() {
    let mut c = Coordinator::new("/base", "hooks/events.jsonl");
    started(&mut c, &incoming("hi", "C1", None, None), "s");
    let line = "{\"hook_event_name\":\"PreToolUse\",\"session_id\":\"s1\",\"cwd\":\"/base\",\"transcript_path\":\"/t\"}";
    assert_eq!(c.handle_hook(&parse_hook_line(line).unwrap()), HookAction::Ignored);
    assert_eq!(c.session(&main_key("C1")).unwrap().last_transcript_path, None);
}

#[test]
fn empty_text_is_taken() {
    let mut c = Coordinator::new("/base", "hooks/events.jsonl");
    let msg = incoming("", "C1", None, None);
    started(&mut c, &msg, "s");
    assert_eq!(
        c.handle_incoming(&msg),
        IncomingAction::Send { session_name: "s".to_string(), text: String::new() }
    );
}

#[test]
fn a_conversation_keeps_its_first_session() {
    let mut c = Coordinator::new("/base", "hooks/events.jsonl");
    started(&mut c, &incoming("hi", "C1", None, None), "first");
    c.session_started(&main_key("C1"), "second", "/elsewhere");
    let entry = c.session(&main_key("C1")).unwrap();
    assert_eq!(entry.session_name, "first");
    assert_eq!(entry.workspace_dir, "/base");
}

#[test]
fn two_channels_share_the_base_workspace() {
    let mut c = Coordinator::new("/base", "/shared/events.jsonl");
    assert_eq!(c.hook_path_for_cwd("/base"), "/shared/events.jsonl");
    assert_eq!(started(&mut c, &incoming("a", "C1", None, None), "one"), "/base");
    assert_eq!(started(&mut c, &incoming("b", "C2", None, None), "two"), "/base");
    let due = deliver(&mut c, &stop_hook("/base", "/t"), TRANSCRIPT).unwrap();
    assert_eq!(due.message.conversation_id, "C2");
    assert_eq!(c.session(&main_key("C1")).unwrap().workspace_dir, "/base");
    assert_eq!(c.session(&main_key("C1")).unwrap().last_delivered_turn_id, None);
}

#[test]
fn a_message_is_sent_once_and_only_on_a_ready_prompt() {
    let mut send = PendingSend::new("s", "hi", 10_000);
    assert_eq!(send.observe("thinking (esc to interrupt)", 0), SendStep::Retry);
    assert_eq!(send.observe("> draft (esc to interrupt)", 5_000_000_000), SendStep::Retry);
    assert_eq!(
        send.observe("> ", 6_000_000_000),
        SendStep::Transmit { session_name: "s".to_string(), text: "hi".to_string() }
    );
    assert_eq!(send.observe("> ", 6_000_000_001), SendStep::Finished);
    assert_eq!(send.observe("> ", 99_000_000_000), SendStep::Finished);
}

#[test]
fn a_prompt_that_never_comes_abandons_the_send() {
    let mut c = Coordinator::new("/base", "hooks/events.jsonl");
    started(&mut c, &incoming("hi", "C1", None, None), "s");
    let before = c.session(&main_key("C1"));
    let mut send = PendingSend::new("s", "hi", 10_000);
    assert_eq!(send.observe("busy", 10_000_000_000), SendStep::Retry);
    assert_eq!(send.observe("busy", 10_000_000_001), SendStep::TimedOut);
    assert_eq!(send.observe("> ", 10_000_000_002), SendStep::Finished);
    assert_eq!(c.session(&main_key("C1")), before);
}

#[test]
fn a_second_message_to_a_session_changes_nothing() {
    let mut c = Coordinator::new("/base", "hooks/events.jsonl");
    let msg = incoming("hi", "C1", None, None);
    started(&mut c, &msg, "s");
    assert!(deliver(&mut c, &stop_hook("/base", "/t"), TRANSCRIPT).is_some());
    let before = c.session(&main_key("C1"));
    for _ in 0..2 {
        assert_eq!(
            c.handle_incoming(&msg),
            IncomingAction::Send { session_name: "s".to_string(), text: "hi".to_string() }
        );
    }
    assert_eq!(c.session(&main_key("C1")), before);
}

#[test]
fn a_started_channel_session_puts_the_channel_on_record() {
    let mut c = Coordinator::new("/base", "hooks/events.jsonl");
    let thread = incoming("q", "C1", Some("t"), Some("1704067205.0"));
    c.session_started(&main_key("C1"), "s", "/base");
    assert_eq!(c.thread_context_source(&thread), None);
    assert!(deliver(&mut c, &stop_hook("/base", "/t.jsonl"), TRANSCRIPT).is_some());
    assert_eq!(
        c.thread_context_source(&thread),
        Some(("/t.jsonl".to_string(), Some("1704067205.0".to_string())))
    );
}
