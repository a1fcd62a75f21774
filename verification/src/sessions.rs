//! The multiplexer sessions: how they are named, how the multiplexer is
//! called, and when the assistant's prompt is ready for input.

use crate::paths::{join_path, joined};
use crate::text::{
    chars_of, contains, has_substring, lines, split_lines, string_of, trim_start,
    trim_start_chars, views,
};
use std::time::{SystemTime, UNIX_EPOCH};
use vstd::prelude::*;

verus! {

/// The glyph with which the assistant marks its input prompt.
pub const PROMPT_GLYPH: char = '\u{276F}';

/// How many lines of a pane are captured to look for the prompt.
pub const CAPTURE_LINES: usize = 200;

/// How many of the captured lines, counted from the last, are examined.
pub const PROMPT_WINDOW: usize = 20;

/// Milliseconds between two looks at a pane.
pub const POLL_INTERVAL_MS: u64 = 200;

/// What the assistant shows on its prompt line while it is still writing.
pub open spec fn busy_marker() -> Seq<char> {
    "esc to interrupt"@
}

/// The character for a number below ten.
pub open spec fn digit_char(d: int) -> char {
    if d == 0 {
        '0'
    } else if d == 1 {
        '1'
    } else if d == 2 {
        '2'
    } else if d == 3 {
        '3'
    } else if d == 4 {
        '4'
    } else if d == 5 {
        '5'
    } else if d == 6 {
        '6'
    } else if d == 7 {
        '7'
    } else if d == 8 {
        '8'
    } else {
        '9'
    }
}

/// A natural number in base ten, without leading zeros.
pub open spec fn decimal_text(n: nat) -> Seq<char>
    decreases n,
{
    if n < 10 {
        seq![digit_char(n as int)]
    } else {
        decimal_text(n / 10).push(digit_char((n % 10) as int))
    }
}

/// The name of a session started at `secs` seconds after the epoch: the
/// prefix, a hyphen and the seconds.
pub open spec fn session_name(prefix: Seq<char>, secs: nat) -> Seq<char> {
    prefix.push('-') + decimal_text(secs)
}

/// A line with each no-break space turned into a space.
pub open spec fn normalized(line: Seq<char>) -> Seq<char> {
    Seq::new(
        line.len(),
        |i: int|
            if line[i] == '\u{00A0}' {
                ' '
            } else {
                line[i]
            },
    )
}

/// Whether a line shows the prompt: after its leading whitespace it begins
/// with the glyph or with `>`.
pub open spec fn is_prompt_line(line: Seq<char>, glyph: char) -> bool {
    let shown = trim_start(normalized(line));
    shown.len() > 0 && (shown[0] == glyph || shown[0] == '>')
}

/// Whether a line says that the assistant is still writing.
pub open spec fn is_busy_line(line: Seq<char>) -> bool {
    contains(normalized(line), busy_marker())
}

/// The lines that are examined: the last twenty.
pub open spec fn prompt_window(all: Seq<Seq<char>>) -> Seq<Seq<char>> {
    if all.len() > 20 {
        all.skip(all.len() - 20)
    } else {
        all
    }
}

/// Whether the lowest prompt line among `window` is there and not busy.
pub open spec fn lowest_prompt_is_idle(window: Seq<Seq<char>>, glyph: char) -> bool
    decreases window.len(),
{
    if window.len() == 0 {
        false
    } else if is_prompt_line(window.last(), glyph) {
        !is_busy_line(window.last())
    } else {
        lowest_prompt_is_idle(window.drop_last(), glyph)
    }
}

/// Whether a pane shows a prompt that takes input: among its last twenty
/// lines there is a prompt line, and the lowest of them is not busy.
pub open spec fn pane_ready(pane: Seq<char>, glyph: char) -> bool {
    lowest_prompt_is_idle(prompt_window(lines(pane)), glyph)
}

/// What to do after a look at a pane.
#[derive(Debug, Clone, Copy, PartialEq, Eq, Structural)]
pub enum PromptPoll {
    /// The prompt takes input.
    Ready,
    /// The prompt did not come in time: give up.
    TimedOut,
    /// Not yet: sleep for `POLL_INTERVAL_MS` and look again.
    Retry,
}

/// The decision after a look at a pane, `elapsed_nanos` after the wait
/// began, where the wait may last `timeout_ms`.
pub open spec fn poll_decision(
    pane: Seq<char>,
    glyph: char,
    elapsed_nanos: int,
    timeout_ms: int,
) -> PromptPoll {
    if pane_ready(pane, glyph) {
        PromptPoll::Ready
    } else if elapsed_nanos > timeout_ms * 1_000_000 {
        PromptPoll::TimedOut
    } else {
        PromptPoll::Retry
    }
}

/// Why a session could not be named.
#[derive(Debug, Clone, Copy, PartialEq, Eq, Structural)]
pub enum ClockError {
    /// The system clock stands before the Unix epoch.
    BeforeEpoch,
}

/// How the multiplexer is called for the sessions of one assistant command.
#[derive(Debug, Clone, PartialEq, Eq)]
pub struct TmuxSessionManager {
    pub claude_cmd: String,
    pub cwd: String,
}

/// The texts of a list of arguments.
pub open spec fn arg_views(args: Seq<String>) -> Seq<Seq<char>> {
    Seq::new(args.len(), |i: int| args[i]@)
}

impl TmuxSessionManager {
    /// A manager that starts `claude_cmd`, by default in `cwd`.
    pub fn new(claude_cmd: &str, cwd: &str) -> (r: Self)
        ensures
            r.claude_cmd@ == claude_cmd@,
            r.cwd@ == cwd@,
    {
        TmuxSessionManager { claude_cmd: String::from_str(claude_cmd), cwd: String::from_str(cwd) }
    }

    /// The arguments that start a detached session `session_name` in the
    /// manager's own directory.
    pub fn spawn_args(&self, session_name: &str) -> (r: Vec<String>)
        ensures
            arg_views(r@) == seq![
                "new-session"@,
                "-d"@,
                "-s"@,
                session_name@,
                "-c"@,
                self.cwd@,
                self.claude_cmd@,
            ],
    {
        self.spawn_in_args(session_name, self.cwd.as_str())
    }

    /// The arguments that start a detached session `session_name` whose
    /// pane runs the assistant command in `workspace_dir`.
    pub fn spawn_in_args(&self, session_name: &str, workspace_dir: &str) -> (r: Vec<String>)
        ensures
            arg_views(r@) == seq![
                "new-session"@,
                "-d"@,
                "-s"@,
                session_name@,
                "-c"@,
                workspace_dir@,
                self.claude_cmd@,
            ],
    {
        let mut args: Vec<String> = Vec::new();
        args.push(String::from_str("new-session"));
        args.push(String::from_str("-d"));
        args.push(String::from_str("-s"));
        args.push(String::from_str(session_name));
        args.push(String::from_str("-c"));
        args.push(String::from_str(workspace_dir));
        args.push(self.claude_cmd.clone());
        assert(arg_views(args@) =~= seq![
            "new-session"@,
            "-d"@,
            "-s"@,
            session_name@,
            "-c"@,
            workspace_dir@,
            self.claude_cmd@,
        ]);
        args
    }

    /// The arguments that type `text` into the session, as it stands.
    pub fn send_text_args(&self, session_name: &str, text: &str) -> (r: Vec<String>)
        ensures
            arg_views(r@) == seq!["send-keys"@, "-t"@, session_name@, text@],
    {
        let mut args: Vec<String> = Vec::new();
        args.push(String::from_str("send-keys"));
        args.push(String::from_str("-t"));
        args.push(String::from_str(session_name));
        args.push(String::from_str(text));
        assert(arg_views(args@) =~= seq!["send-keys"@, "-t"@, session_name@, text@]);
        args
    }

    /// The arguments that press return in the session.
    pub fn send_enter_args(&self, session_name: &str) -> (r: Vec<String>)
        ensures
            arg_views(r@) == seq!["send-keys"@, "-t"@, session_name@, "C-m"@],
    {
        let mut args: Vec<String> = Vec::new();
        args.push(String::from_str("send-keys"));
        args.push(String::from_str("-t"));
        args.push(String::from_str(session_name));
        args.push(String::from_str("C-m"));
        assert(arg_views(args@) =~= seq!["send-keys"@, "-t"@, session_name@, "C-m"@]);
        args
    }

    /// The arguments that kill the session.
    pub fn stop_args(&self, session_name: &str) -> (r: Vec<String>)
        ensures
            arg_views(r@) == seq!["kill-session"@, "-t"@, session_name@],
    {
        let mut args: Vec<String> = Vec::new();
        args.push(String::from_str("kill-session"));
        args.push(String::from_str("-t"));
        args.push(String::from_str(session_name));
        assert(arg_views(args@) =~= seq!["kill-session"@, "-t"@, session_name@]);
        args
    }

    /// The arguments that print the last `line_count` lines of the
    /// session's pane.
    pub fn capture_pane_args(&self, session_name: &str, line_count: usize) -> (r: Vec<String>)
        ensures
            arg_views(r@) == seq![
                "capture-pane"@,
                "-t"@,
                session_name@,
                "-p"@,
                "-S"@,
                seq!['-'] + decimal_text(line_count as nat),
            ],
    {
        let mut start: Vec<char> = Vec::new();
        start.push('-');
        let mut digits = decimal_chars(line_count as u64);
        start.append(&mut digits);
        let mut args: Vec<String> = Vec::new();
        args.push(String::from_str("capture-pane"));
        args.push(String::from_str("-t"));
        args.push(String::from_str(session_name));
        args.push(String::from_str("-p"));
        args.push(String::from_str("-S"));
        args.push(string_of(&start));
        assert(arg_views(args@) =~= seq![
            "capture-pane"@,
            "-t"@,
            session_name@,
            "-p"@,
            "-S"@,
            seq!['-'] + decimal_text(line_count as nat),
        ]);
        args
    }
}

fn digit_of(d: u64) -> (c: char)
    requires
        d < 10,
    ensures
        c == digit_char(d as int),
{
    if d == 0 {
        '0'
    } else if d == 1 {
        '1'
    } else if d == 2 {
        '2'
    } else if d == 3 {
        '3'
    } else if d == 4 {
        '4'
    } else if d == 5 {
        '5'
    } else if d == 6 {
        '6'
    } else if d == 7 {
        '7'
    } else if d == 8 {
        '8'
    } else {
        '9'
    }
}

/// `n` in base ten.
pub fn decimal_chars(n: u64) -> (r: Vec<char>)
    ensures
        r@ == decimal_text(n as nat),
    decreases n,
{
    if n < 10 {
        let mut out: Vec<char> = Vec::new();
        out.push(digit_of(n));
        out
    } else {
        let mut out = decimal_chars(n / 10);
        out.push(digit_of(n % 10));
        out
    }
}

/// The name of a session started at `secs` seconds after the epoch.
pub fn session_name_at(prefix: &str, secs: u64) -> (r: String)
    ensures
        r@ == session_name(prefix@, secs as nat),
{
    let mut out = chars_of(prefix);
    out.push('-');
    let mut digits = decimal_chars(secs);
    out.append(&mut digits);
    string_of(&out)
}

/// The time on the system clock, read with `SystemTime::now`, in whole
/// seconds since the Unix epoch; nothing where the clock stands before it.
#[verifier::external_body]
fn unix_seconds_now() -> Option<u64> {
    SystemTime::now().duration_since(UNIX_EPOCH).ok().map(|elapsed| elapsed.as_secs())
}

/// A name for a session that starts now: the prefix, a hyphen and the
/// seconds that the system clock counts since the epoch.
pub fn timestamp_session_name(prefix: &str) -> (r: Result<String, ClockError>)
    ensures
        r matches Ok(name) ==> exists|secs: u64| name@ == #[trigger] session_name(
            prefix@,
            secs as nat,
        ),
{
    match unix_seconds_now() {
        Some(secs) => Ok(session_name_at(prefix, secs)),
        None => Err(ClockError::BeforeEpoch),
    }
}

/// Where the hook file lies for a process that runs in `cwd`, where
/// `events_path` is the path configured for it.
pub fn default_hook_path(cwd: &str, events_path: &str) -> (r: String)
    ensures
        r@ == joined(cwd@, events_path@),
{
    join_path(cwd, events_path)
}

fn normalize_line(line: &Vec<char>) -> (r: Vec<char>)
    ensures
        r@ == normalized(line@),
{
    let mut out: Vec<char> = Vec::new();
    let mut i: usize = 0;
    while i < line.len()
        invariant
            i <= line.len(),
            out@ == normalized(line@).take(i as int),
        decreases line.len() - i,
    {
        let c = line[i];
        if c == '\u{00A0}' {
            out.push(' ');
        } else {
            out.push(c);
        }
        assert(out@ == normalized(line@).take(i + 1));
        i += 1;
    }
    assert(normalized(line@).take(line.len() as int) == normalized(line@));
    out
}

/// Whether a pane shows a prompt that takes input, where `glyph` marks the
/// prompt: see `pane_ready`.
pub fn prompt_ready_with(pane: &str, glyph: char) -> (r: bool)
    ensures
        r == pane_ready(pane@, glyph),
{
    let chars = chars_of(pane);
    let all = split_lines(&chars);
    let marker = chars_of("esc to interrupt");
    let n = all.len();
    let first: usize = if n > 20 {
        n - 20
    } else {
        0
    };
    let ghost window = prompt_window(lines(pane@));
    assert(window == views(all@).subrange(first as int, n as int));
    let mut i: usize = n;
    assert(window.take(i - first) == window);
    while i > first
        invariant
            first <= i <= n,
            n == all.len(),
            window == views(all@).subrange(first as int, n as int),
            window == prompt_window(lines(pane@)),
            marker@ == busy_marker(),
            lowest_prompt_is_idle(window, glyph) == lowest_prompt_is_idle(
                window.take(i - first),
                glyph,
            ),
        decreases i,
    {
        i -= 1;
        assert(window.take(i + 1 - first).drop_last() == window.take(i - first));
        assert(window.take(i + 1 - first).last() == all@[i as int]@);
        let line = normalize_line(&all[i]);
        let shown = trim_start_chars(&line);
        if shown.len() > 0 && (shown[0] == glyph || shown[0] == '>') {
            return !has_substring(&line, &marker);
        }
    }
    false
}

/// Whether a pane shows a prompt that takes input.
pub fn prompt_ready(pane: &str) -> (r: bool)
    ensures
        r == pane_ready(pane@, PROMPT_GLYPH),
{
    prompt_ready_with(pane, PROMPT_GLYPH)
}

/// What to do after a look at a pane: see `poll_decision`.
pub fn poll_prompt(pane: &str, elapsed_nanos: u128, timeout_ms: u64) -> (r: PromptPoll)
    ensures
        r == poll_decision(pane@, PROMPT_GLYPH, elapsed_nanos as int, timeout_ms as int),
{
    if prompt_ready(pane) {
        PromptPoll::Ready
    } else if elapsed_nanos > (timeout_ms as u128) * 1_000_000 {
        PromptPoll::TimedOut
    } else {
        PromptPoll::Retry
    }
}

} // verus!
