//! Messages typed on a command line.

use crate::text::{
    chars_of, find_whitespace, first_whitespace, has_prefix, starts_with, string_of, subvec, trim,
    trim_chars, trim_start, trim_start_chars,
};
use crate::types::{IncomingMessage, IncomingView};
use vstd::prelude::*;

verus! {

/// The conversation that typed messages belong to.
pub open spec fn cli_conversation() -> Seq<char> {
    "cli"@
}

/// What marks a typed message as one for a thread.
pub open spec fn thread_marker() -> Seq<char> {
    "thread:"@
}

/// Why a typed line is no message.
#[derive(Debug, Clone, Copy, PartialEq, Eq, Structural)]
pub enum InputError {
    /// The line is blank.
    Empty,
    /// No thread id follows `thread:`.
    MissingThreadId,
    /// No text follows the thread id.
    MissingText,
}

impl InputError {
    /// The error in words.
    pub fn message(&self) -> (r: String)
        ensures
            r@ == match *self {
                InputError::Empty => "empty input"@,
                InputError::MissingThreadId => "thread id is required after thread:"@,
                InputError::MissingText => "message text is required after thread id"@,
            },
    {
        match self {
            InputError::Empty => String::from_str("empty input"),
            InputError::MissingThreadId => String::from_str("thread id is required after thread:"),
            InputError::MissingText => String::from_str("message text is required after thread id"),
        }
    }
}

/// The message that a typed line stands for. A line `thread:<id> <text>`
/// is a message for the thread `<id>`: the id ends at the first whitespace,
/// the text is what follows, trimmed. Any other line that is not blank is a
/// message for the conversation itself, with the trimmed line as its text.
pub open spec fn typed_message(line: Seq<char>) -> Result<IncomingView, InputError> {
    let trimmed = trim(line);
    if trimmed.len() == 0 {
        Err(InputError::Empty)
    } else if starts_with(trimmed, thread_marker()) {
        let rest = trim_start(trimmed.skip(thread_marker().len() as int));
        let k = first_whitespace(rest);
        let thread_id = trim(rest.take(k));
        let text = if k < rest.len() {
            trim(rest.skip(k + 1))
        } else {
            Seq::empty()
        };
        if thread_id.len() == 0 {
            Err(InputError::MissingThreadId)
        } else if text.len() == 0 {
            Err(InputError::MissingText)
        } else {
            Ok(
                IncomingView {
                    text,
                    conversation_id: cli_conversation(),
                    thread_id: Some(thread_id),
                    timestamp: None,
                },
            )
        }
    } else {
        Ok(
            IncomingView {
                text: trimmed,
                conversation_id: cli_conversation(),
                thread_id: None,
                timestamp: None,
            },
        )
    }
}

/// Reads a typed line as a message: see `typed_message`.
pub fn parse_input(line: &str) -> (r: Result<IncomingMessage, InputError>)
    ensures
        match r {
            Ok(message) => typed_message(line@) == Ok::<IncomingView, InputError>(message@),
            Err(e) => typed_message(line@) == Err::<IncomingView, InputError>(e),
        },
{
    let chars = chars_of(line);
    let trimmed = trim_chars(&chars);
    if trimmed.len() == 0 {
        return Err(InputError::Empty);
    }
    let marker = chars_of("thread:");
    if has_prefix(&trimmed, &marker) {
        let after = subvec(&trimmed, marker.len(), trimmed.len());
        assert(after@ == trimmed@.skip(thread_marker().len() as int));
        let rest = trim_start_chars(&after);
        let k = find_whitespace(&rest);
        let head = subvec(&rest, 0, k);
        assert(head@ == rest@.take(k as int));
        let thread_id = trim_chars(&head);
        let text = if k < rest.len() {
            let tail = subvec(&rest, k + 1, rest.len());
            assert(tail@ == rest@.skip(k + 1));
            trim_chars(&tail)
        } else {
            Vec::new()
        };
        if thread_id.len() == 0 {
            return Err(InputError::MissingThreadId);
        }
        if text.len() == 0 {
            return Err(InputError::MissingText);
        }
        return Ok(
            IncomingMessage {
                text: string_of(&text),
                conversation_id: String::from_str("cli"),
                thread_id: Some(string_of(&thread_id)),
                timestamp: None,
            },
        );
    }
    Ok(
        IncomingMessage {
            text: string_of(&trimmed),
            conversation_id: String::from_str("cli"),
            thread_id: None,
            timestamp: None,
        },
    )
}

} // verus!
