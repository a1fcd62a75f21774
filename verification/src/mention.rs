//! Mentions of the bot on the chat platform, as messages for the
//! coordinator.

use crate::text::{is_blank, str_is_blank};
use crate::types::{copy_option, IncomingMessage, IncomingView};
use vstd::prelude::*;

verus! {

/// The text of an optional string, empty where there is none.
pub open spec fn text_or_empty(s: Option<String>) -> Seq<char> {
    match s {
        Some(s) => s@,
        None => Seq::empty(),
    }
}

/// The thread that a mention belongs to.
pub open spec fn thread_of(thread_ts: Option<String>) -> Option<Seq<char>> {
    match thread_ts {
        Some(ts) => Some(ts@),
        None => None,
    }
}

/// The message that a mention stands for. A mention counts if its text is
/// not blank and it names a channel. Its thread is the thread it was
/// written in, its timestamp its own.
pub fn incoming_from_mention(
    text: Option<String>,
    channel: Option<String>,
    thread_ts: Option<String>,
    ts: String,
) -> (r: Option<IncomingMessage>)
    ensures
        r is Some <==> !is_blank(text_or_empty(text)) && text_or_empty(channel).len() > 0,
        r matches Some(message) ==> message@ == (IncomingView {
            text: text_or_empty(text),
            conversation_id: text_or_empty(channel),
            thread_id: thread_of(thread_ts),
            timestamp: Some(ts@),
        }),
{
    let text = match text {
        Some(text) => text,
        None => String::new(),
    };
    let channel = match channel {
        Some(channel) => channel,
        None => String::new(),
    };
    if str_is_blank(text.as_str()) || channel.as_str().is_empty() {
        return None;
    }
    Some(
        IncomingMessage {
            text,
            conversation_id: channel,
            thread_id: copy_option(&thread_ts),
            timestamp: Some(ts),
        },
    )
}

} // verus!
