//! The hook file: one JSON record for each event of the assistant.

use crate::json::{json_parse, Json, JsonModel};
use crate::text::{
    chars_of, is_blank, push_char, str_is_blank, string_of, trim_end, trim_end_chars,
};
use vstd::prelude::*;

verus! {

/// An event of the assistant, as its hook reports it.
#[derive(Debug, Clone, PartialEq, Eq)]
pub struct HookEvent {
    pub event_name: String,
    pub session_id: String,
    /// The workspace in which the assistant runs.
    pub cwd: String,
    pub transcript_path: String,
}

/// The mathematical value of a `HookEvent`.
pub struct HookEventView {
    pub event_name: Seq<char>,
    pub session_id: Seq<char>,
    pub cwd: Seq<char>,
    pub transcript_path: Seq<char>,
}

impl View for HookEvent {
    type V = HookEventView;

    open spec fn view(&self) -> HookEventView {
        HookEventView {
            event_name: self.event_name@,
            session_id: self.session_id@,
            cwd: self.cwd@,
            transcript_path: self.transcript_path@,
        }
    }
}

/// Why a line of the hook file is no event.
#[derive(Debug, Clone, Copy, PartialEq, Eq, Structural)]
pub enum HookError {
    /// The line is not JSON.
    InvalidJson,
    /// `hook_event_name` is missing or no string.
    EventName,
    /// `session_id` is missing or no string.
    SessionId,
    /// `cwd` is missing or no string.
    Cwd,
    /// `transcript_path` or `agent_transcript_path` is neither a string
    /// nor null.
    TranscriptPath,
    /// Neither `transcript_path` nor `agent_transcript_path` is given.
    MissingTranscriptPath,
}

impl HookError {
    /// The error in words.
    pub fn message(&self) -> (r: String)
        ensures
            r@ == match *self {
                HookError::InvalidJson => "failed to parse hook json"@,
                HookError::EventName => "hook_event_name must be a string"@,
                HookError::SessionId => "session_id must be a string"@,
                HookError::Cwd => "cwd must be a string"@,
                HookError::TranscriptPath => "transcript path must be a string"@,
                HookError::MissingTranscriptPath => "missing transcript_path"@,
            },
    {
        match self {
            HookError::InvalidJson => String::from_str("failed to parse hook json"),
            HookError::EventName => String::from_str("hook_event_name must be a string"),
            HookError::SessionId => String::from_str("session_id must be a string"),
            HookError::Cwd => String::from_str("cwd must be a string"),
            HookError::TranscriptPath => String::from_str("transcript path must be a string"),
            HookError::MissingTranscriptPath => String::from_str("missing transcript_path"),
        }
    }
}

/// A member that may be left out: a string, or nothing where the member is
/// missing or null. Anything else is a fault.
pub open spec fn optional_text(record: JsonModel, key: Seq<char>) -> Result<Option<Seq<char>>, ()> {
    match record.member(key) {
        None => Ok(None),
        Some(JsonModel::Null) => Ok(None),
        Some(JsonModel::Text(text)) => Ok(Some(text)),
        Some(_) => Err(()),
    }
}

/// The event that a record of the hook file stands for. `transcript_path`
/// counts before `agent_transcript_path`.
pub open spec fn hook_of_record(record: JsonModel) -> Result<HookEventView, HookError> {
    match (
        record.member_text("hook_event_name"@),
        record.member_text("session_id"@),
        record.member_text("cwd"@),
    ) {
        (None, _, _) => Err(HookError::EventName),
        (Some(_), None, _) => Err(HookError::SessionId),
        (Some(_), Some(_), None) => Err(HookError::Cwd),
        (Some(event_name), Some(session_id), Some(cwd)) => match (
            optional_text(record, "transcript_path"@),
            optional_text(record, "agent_transcript_path"@),
        ) {
            (Err(_), _) => Err(HookError::TranscriptPath),
            (Ok(_), Err(_)) => Err(HookError::TranscriptPath),
            (Ok(Some(path)), Ok(_)) => Ok(
                HookEventView { event_name, session_id, cwd, transcript_path: path },
            ),
            (Ok(None), Ok(Some(path))) => Ok(
                HookEventView { event_name, session_id, cwd, transcript_path: path },
            ),
            (Ok(None), Ok(None)) => Err(HookError::MissingTranscriptPath),
        },
    }
}

/// The event that a line of the hook file stands for.
pub open spec fn hook_of_line(line: Seq<char>) -> Result<HookEventView, HookError> {
    match json_parse(line) {
        Some(record) => hook_of_record(record),
        None => Err(HookError::InvalidJson),
    }
}

/// A payload as it is appended to the hook file: with a line feed at its
/// end, added where it has none.
pub open spec fn newline_terminated(payload: Seq<char>) -> Seq<char> {
    if payload.len() > 0 && payload.last() == '\n' {
        payload
    } else {
        payload.push('\n')
    }
}

/// What a line read from the hook file yields: nothing where it is blank,
/// else the event on it, read without its trailing whitespace.
pub open spec fn received(line: Seq<char>) -> Option<Result<HookEventView, HookError>> {
    if is_blank(trim_end(line)) {
        None
    } else {
        Some(hook_of_line(trim_end(line)))
    }
}

fn optional_member<'a>(record: &'a Json, key: &str) -> (r: Result<Option<&'a str>, ()>)
    ensures
        match r {
            Ok(Some(text)) => optional_text(record@, key@) == Ok::<Option<Seq<char>>, ()>(
                Some(text@),
            ),
            Ok(None) => optional_text(record@, key@) == Ok::<Option<Seq<char>>, ()>(None),
            Err(_) => optional_text(record@, key@) is Err,
        },
{
    match record.get(key) {
        None => Ok(None),
        Some(value) => match value {
            Json::Null => Ok(None),
            Json::Text(text) => Ok(Some(text.as_str())),
            _ => Err(()),
        },
    }
}

/// The event that a record of the hook file stands for: see
/// `hook_of_record`.
pub fn hook_from_record(record: &Json) -> (r: Result<HookEvent, HookError>)
    ensures
        match r {
            Ok(event) => hook_of_record(record@) == Ok::<HookEventView, HookError>(event@),
            Err(e) => hook_of_record(record@) == Err::<HookEventView, HookError>(e),
        },
{
    let event_name = match record.get_text("hook_event_name") {
        Some(text) => text,
        None => {
            return Err(HookError::EventName);
        },
    };
    let session_id = match record.get_text("session_id") {
        Some(text) => text,
        None => {
            return Err(HookError::SessionId);
        },
    };
    let cwd = match record.get_text("cwd") {
        Some(text) => text,
        None => {
            return Err(HookError::Cwd);
        },
    };
    let own = match optional_member(record, "transcript_path") {
        Ok(path) => path,
        Err(_) => {
            return Err(HookError::TranscriptPath);
        },
    };
    let agent = match optional_member(record, "agent_transcript_path") {
        Ok(path) => path,
        Err(_) => {
            return Err(HookError::TranscriptPath);
        },
    };
    let path = match own {
        Some(path) => path,
        None => match agent {
            Some(path) => path,
            None => {
                return Err(HookError::MissingTranscriptPath);
            },
        },
    };
    Ok(
        HookEvent {
            event_name: String::from_str(event_name),
            session_id: String::from_str(session_id),
            cwd: String::from_str(cwd),
            transcript_path: String::from_str(path),
        },
    )
}

/// The event that a line of the hook file stands for: see `hook_of_line`.
pub fn parse_hook_line(line: &str) -> (r: Result<HookEvent, HookError>)
    ensures
        match r {
            Ok(event) => hook_of_line(line@) == Ok::<HookEventView, HookError>(event@),
            Err(e) => hook_of_line(line@) == Err::<HookEventView, HookError>(e),
        },
{
    match Json::parse(line) {
        Ok(record) => hook_from_record(&record),
        Err(_) => Err(HookError::InvalidJson),
    }
}

/// What a line read from the hook file yields: see `received`.
pub fn receive_line(line: &str) -> (r: Option<Result<HookEvent, HookError>>)
    ensures
        match r {
            None => received(line@) is None,
            Some(Ok(event)) => received(line@) == Some(Ok::<HookEventView, HookError>(event@)),
            Some(Err(e)) => received(line@) == Some(Err::<HookEventView, HookError>(e)),
        },
{
    let chars = chars_of(line);
    let trimmed = trim_end_chars(&chars);
    let text = string_of(&trimmed);
    if str_is_blank(text.as_str()) {
        None
    } else {
        Some(parse_hook_line(text.as_str()))
    }
}

/// A payload as it is appended to the hook file: see `newline_terminated`.
pub fn with_trailing_newline(payload: String) -> (r: String)
    ensures
        r@ == newline_terminated(payload@),
{
    let chars = chars_of(payload.as_str());
    let n = chars.len();
    if n > 0 && chars[n - 1] == '\n' {
        payload
    } else {
        let mut out = payload;
        push_char(&mut out, '\n');
        out
    }
}

} // verus!
