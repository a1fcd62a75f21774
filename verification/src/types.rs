//! The messages that pass through the bridge.

use vstd::prelude::*;

verus! {

/// Who wrote a turn of the transcript.
#[derive(Debug, Clone, Copy, PartialEq, Eq, Structural)]
pub enum Role {
    User,
    Assistant,
}

/// One turn of the transcript.
#[derive(Debug, Clone, PartialEq, Eq)]
pub struct TranscriptMessage {
    pub role: Role,
    pub text: String,
}

/// A message from the chat platform.
#[derive(Debug, Clone, PartialEq, Eq)]
pub struct IncomingMessage {
    pub text: String,
    pub conversation_id: String,
    pub thread_id: Option<String>,
    pub timestamp: Option<String>,
}

/// A reply for the chat platform.
#[derive(Debug, Clone, PartialEq, Eq)]
pub struct OutgoingMessage {
    pub text: String,
    pub conversation_id: String,
    pub thread_id: Option<String>,
}

/// The mathematical value of a `TranscriptMessage`.
pub struct MessageView {
    pub role: Role,
    pub text: Seq<char>,
}

/// The mathematical value of an `IncomingMessage`.
pub struct IncomingView {
    pub text: Seq<char>,
    pub conversation_id: Seq<char>,
    pub thread_id: Option<Seq<char>>,
    pub timestamp: Option<Seq<char>>,
}

/// The mathematical value of an `OutgoingMessage`.
pub struct OutgoingView {
    pub text: Seq<char>,
    pub conversation_id: Seq<char>,
    pub thread_id: Option<Seq<char>>,
}

/// The text of an optional string.
pub open spec fn option_view(s: Option<String>) -> Option<Seq<char>> {
    match s {
        Some(s) => Some(s@),
        None => None,
    }
}

/// The text of an optional string slice.
pub open spec fn option_str_view(s: Option<&str>) -> Option<Seq<char>> {
    match s {
        Some(s) => Some(s@),
        None => None,
    }
}

impl View for TranscriptMessage {
    type V = MessageView;

    open spec fn view(&self) -> MessageView {
        MessageView { role: self.role, text: self.text@ }
    }
}

impl View for IncomingMessage {
    type V = IncomingView;

    open spec fn view(&self) -> IncomingView {
        IncomingView {
            text: self.text@,
            conversation_id: self.conversation_id@,
            thread_id: option_view(self.thread_id),
            timestamp: option_view(self.timestamp),
        }
    }
}

impl View for OutgoingMessage {
    type V = OutgoingView;

    open spec fn view(&self) -> OutgoingView {
        OutgoingView {
            text: self.text@,
            conversation_id: self.conversation_id@,
            thread_id: option_view(self.thread_id),
        }
    }
}

/// The views of a sequence of transcript messages.
pub open spec fn message_views(messages: Seq<TranscriptMessage>) -> Seq<MessageView> {
    Seq::new(messages.len(), |i: int| messages[i]@)
}

/// A copy of an optional string.
pub fn copy_option(s: &Option<String>) -> (r: Option<String>)
    ensures
        option_view(r) == option_view(*s),
{
    match s {
        Some(s) => Some(s.clone()),
        None => None,
    }
}

} // verus!
