use ccterm::paths::{join_path, path_is_absolute};
use ccterm::sessions::{
    decimal_chars, default_hook_path, poll_prompt, prompt_ready, prompt_ready_with,
    session_name_at, timestamp_session_name, PromptPoll, TmuxSessionManager, CAPTURE_LINES,
    POLL_INTERVAL_MS, PROMPT_GLYPH,
};
use ccterm::text::string_of;

fn pane(lines: &[&str]) -> String {
    let mut out = String::new();
    for line in lines {
        out.push_str(line);
        out.push('\n');
    }
    out
}

#[test]
fn busy_prompt_is_not_ready_and_idle_prompt_is() {
    let mut lines = vec!["output"; 19];
    lines.push("> prompt (esc to interrupt)");
    assert!(!prompt_ready(&pane(&lines)));
    lines[19] = "> ";
    assert!(prompt_ready(&pane(&lines)));
}

#[test]
fn trailing_empty_lines_do_not_hide_the_prompt() {
    assert!(!prompt_ready("a\n> working (esc to interrupt)\n\n\n"));
    assert!(prompt_ready("a\n> \n\n\n"));
}

#[test]
fn the_lowest_prompt_line_decides() {
    assert!(!prompt_ready("> \n> again (esc to interrupt)\n"));
    assert!(prompt_ready("> old (esc to interrupt)\n> \n"));
}

#[test]
fn prompt_glyphs_and_leading_space() {
    assert_eq!(PROMPT_GLYPH, '\u{276F}');
    assert!(prompt_ready("   \u{276F} type here"));
    assert!(prompt_ready("\u{00A0}\u{00A0}>\u{00A0}"));
    assert!(!prompt_ready("\u{276F} esc\u{00A0}to\u{00A0}interrupt"));
    assert!(!prompt_ready("x > y"));
    assert!(!prompt_ready(""));
    assert!(!prompt_ready("$ shell"));
    assert!(prompt_ready_with("$ shell", '$'));
    assert!(prompt_ready_with("> still the fallback", '$'));
}

#[test]
fn only_the_last_twenty_lines_are_examined() {
    let mut lines = vec!["> "];
    lines.extend(vec!["noise"; 20]);
    assert!(!prompt_ready(&pane(&lines)));
    let mut lines = vec!["> "];
    lines.extend(vec!["noise"; 19]);
    assert!(prompt_ready(&pane(&lines)));
}

#[test]
fn polling_decisions() {
    assert_eq!(poll_prompt("> ", 0, 10_000), PromptPoll::Ready);
    assert_eq!(poll_prompt("> ", u128::MAX, 0), PromptPoll::Ready);
    assert_eq!(poll_prompt("busy", 0, 10_000), PromptPoll::Retry);
    assert_eq!(poll_prompt("busy", 10_000_000_000, 10_000), PromptPoll::Retry);
    assert_eq!(poll_prompt("busy", 10_000_000_001, 10_000), PromptPoll::TimedOut);
    assert_eq!(poll_prompt("> x (esc to interrupt)", 1, 0), PromptPoll::TimedOut);
    assert_eq!(poll_prompt("busy", u128::MAX, u64::MAX), PromptPoll::TimedOut);
    assert_eq!(CAPTURE_LINES, 200);
    assert_eq!(POLL_INTERVAL_MS, 200);
}

#[test]
fn session_names() {
    assert_eq!(session_name_at("ccterm", 1_700_000_000), "ccterm-1700000000");
    assert_eq!(session_name_at("", 0), "-0");
    assert_eq!(session_name_at("p", u64::MAX), "p-18446744073709551615");
    for n in [0u64, 9, 10, 99, 100, 1234567890, u64::MAX] {
        assert_eq!(string_of(&decimal_chars(n)), n.to_string());
    }
}

#[test]
fn session_name_from_the_clock() {
    let name = timestamp_session_name("ccterm").unwrap();
    let secs = name.strip_prefix("ccterm-").unwrap();
    assert!(!secs.is_empty() && secs.chars().all(|c| c.is_ascii_digit()));
    assert!(secs.parse::<u64>().unwrap() > 1_600_000_000);
}

#[test]
fn paths_join_as_std_does() {
    for (base, rel) in [
        ("/base", "a/b"), ("/base/", "a"), ("", "a"), ("/base", "/abs"), ("/base", ""),
        ("rel", "x"), ("/", "x"), ("", ""), ("a//", "b"),
    ] {
        let expected = std::path::Path::new(base).join(rel);
        assert_eq!(join_path(base, rel), expected.to_str().unwrap(), "{:?} {:?}", base, rel);
    }
    assert!(path_is_absolute("/x"));
    assert!(!path_is_absolute("x/y"));
    assert!(!path_is_absolute(""));
    assert_eq!(default_hook_path("/work", "hooks/events.jsonl"), "/work/hooks/events.jsonl");
    assert_eq!(default_hook_path("/work", "/shared/events.jsonl"), "/shared/events.jsonl");
}

#[test]
fn multiplexer_arguments() {
    let m = TmuxSessionManager::new("assistant --flag", "/work");
    assert_eq!(m.claude_cmd, "assistant --flag");
    assert_eq!(m.cwd, "/work");
    assert_eq!(m.spawn_args("s1"), vec!["new-session", "-d", "-s", "s1", "-c", "/work", "assistant --flag"]);
    assert_eq!(m.spawn_in_args("s2", "/other"), vec!["new-session", "-d", "-s", "s2", "-c", "/other", "assistant --flag"]);
    assert_eq!(m.send_text_args("s1", "hi; rm -rf"), vec!["send-keys", "-t", "s1", "hi; rm -rf"]);
    assert_eq!(m.send_enter_args("s1"), vec!["send-keys", "-t", "s1", "C-m"]);
    assert_eq!(m.stop_args("s1"), vec!["kill-session", "-t", "s1"]);
    assert_eq!(m.capture_pane_args("s1", 200), vec!["capture-pane", "-t", "s1", "-p", "-S", "-200"]);
    assert_eq!(m.capture_pane_args("s1", 0), vec!["capture-pane", "-t", "s1", "-p", "-S", "-0"]);
}
