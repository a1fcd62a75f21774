use ccterm::cli_adapter::{parse_input, InputError};
use ccterm::config::{
    default_hook_timeout_secs, default_prompt_timeout_ms, default_session_prefix, ClaudeConfig,
    Config, ConfigError, CoordinatorConfig, HooksConfig, SlackConfig, TmuxConfig,
};
use ccterm::mention::incoming_from_mention;
use ccterm::types::IncomingMessage;

fn typed(text: &str, thread: Option<&str>) -> IncomingMessage {
    IncomingMessage {
        text: text.to_string(),
        conversation_id: "cli".to_string(),
        thread_id: thread.map(|t| t.to_string()),
        timestamp: None,
    }
}

#[test]
fn plain_line_is_a_message_for_the_conversation() {
    assert_eq!(parse_input("  hello world \n"), Ok(typed("hello world", None)));
    assert_eq!(parse_input("thread"), Ok(typed("thread", None)));
    assert_eq!(parse_input("x thread:1 y"), Ok(typed("x thread:1 y", None)));
}

#[test]
fn thread_line_is_a_message_for_the_thread() {
    assert_eq!(parse_input("thread:1700.123 hi there"), Ok(typed("hi there", Some("1700.123"))));
    assert_eq!(parse_input(" thread:   t1\t  spaced  out  "), Ok(typed("spaced  out", Some("t1"))));
    assert_eq!(parse_input("thread:a\u{00A0}b"), Ok(typed("b", Some("a"))));
}

#[test]
fn input_errors() {
    assert_eq!(parse_input(""), Err(InputError::Empty));
    assert_eq!(parse_input(" \t\n"), Err(InputError::Empty));
    assert_eq!(parse_input("thread:"), Err(InputError::MissingThreadId));
    assert_eq!(parse_input("thread:   "), Err(InputError::MissingThreadId));
    assert_eq!(parse_input("thread:t1"), Err(InputError::MissingText));
    assert_eq!(parse_input("thread: t1   "), Err(InputError::MissingText));
    assert_eq!(InputError::Empty.message(), "empty input");
    assert_eq!(InputError::MissingThreadId.message(), "thread id is required after thread:");
    assert_eq!(InputError::MissingText.message(), "message text is required after thread id");
}

fn config(bot: &str, app: &str) -> Config {
    Config::with_defaults(
        SlackConfig { bot_token: bot.to_string(), app_token: app.to_string() },
        ClaudeConfig::new("assistant", "/work"),
        HooksConfig::new("hooks/events.jsonl"),
    )
}

#[test]
fn configuration_defaults() {
    let c = config("xoxb", "xapp");
    assert_eq!(c.claude.command, "assistant");
    assert_eq!(c.claude.cwd, "/work");
    assert_eq!(c.hooks.events_path, "hooks/events.jsonl");
    assert_eq!(c.tmux.session_prefix, "ccterm");
    assert_eq!(c.coordinator.hook_timeout_secs, 10);
    assert_eq!(c.coordinator.prompt_timeout_ms, 10_000);
    assert_eq!(default_session_prefix(), "ccterm");
    assert_eq!(default_hook_timeout_secs(), 10);
    assert_eq!(default_prompt_timeout_ms(), 10_000);
    assert_eq!(TmuxConfig::default().session_prefix, "ccterm");
    assert_eq!(
        CoordinatorConfig::default(),
        CoordinatorConfig { hook_timeout_secs: 10, prompt_timeout_ms: 10_000 }
    );
}

#[test]
fn configuration_needs_both_tokens() {
    assert_eq!(config("xoxb", "xapp").validate(), Ok(config("xoxb", "xapp")));
    assert_eq!(config("", "xapp").validate(), Err(ConfigError::MissingSlackTokens));
    assert_eq!(config("xoxb", "  \t").validate(), Err(ConfigError::MissingSlackTokens));
    assert_eq!(config(" ", "").validate(), Err(ConfigError::MissingSlackTokens));
    assert_eq!(
        ConfigError::MissingSlackTokens.message(),
        "slack.bot_token and slack.app_token are required"
    );
}

#[test]
fn mentions_become_messages() {
    let got = incoming_from_mention(
        Some("hi".to_string()),
        Some("C1".to_string()),
        Some("1700.123".to_string()),
        "1700.500".to_string(),
    );
    assert_eq!(
        got,
        Some(IncomingMessage {
            text: "hi".to_string(),
            conversation_id: "C1".to_string(),
            thread_id: Some("1700.123".to_string()),
            timestamp: Some("1700.500".to_string()),
        })
    );
    let main = incoming_from_mention(Some(" hi ".to_string()), Some("C1".to_string()), None, "1.0".to_string()).unwrap();
    assert_eq!(main.text, " hi ");
    assert_eq!(main.thread_id, None);
}

#[test]
fn empty_mentions_are_dropped() {
    assert_eq!(incoming_from_mention(None, Some("C1".to_string()), None, "1.0".to_string()), None);
    assert_eq!(incoming_from_mention(Some("  ".to_string()), Some("C1".to_string()), None, "1.0".to_string()), None);
    assert_eq!(incoming_from_mention(Some("hi".to_string()), None, None, "1.0".to_string()), None);
    assert_eq!(incoming_from_mention(Some("hi".to_string()), Some(String::new()), None, "1.0".to_string()), None);
}
