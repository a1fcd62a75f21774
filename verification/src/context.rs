//! Reading the assistant's transcript: one JSON record per line.

use crate::json::{item_views, json_parse, Json, JsonModel};
use crate::text::{
    chars_of, is_blank, lines, push_char, split_lines, str_eq, str_is_blank, string_of, views,
};
use crate::timestamp::{iso_nanos, parse_iso_ts_to_nanos, parse_slack_ts_to_nanos, slack_nanos};
use crate::types::{message_views, option_str_view, MessageView, Role, TranscriptMessage};
use vstd::prelude::*;

verus! {

/// The text that one part of a content list adds: its `text`, where that is
/// a string and, if `only_text_parts`, where its `type` is `"text"`.
pub open spec fn part_text(part: JsonModel, only_text_parts: bool) -> Seq<char> {
    if only_text_parts && part.member_text("type"@) != Some("text"@) {
        Seq::empty()
    } else {
        match part.member_text("text"@) {
            Some(text) => text,
            None => Seq::empty(),
        }
    }
}

/// The texts of the parts, one after another.
pub open spec fn joined_text(parts: Seq<JsonModel>, only_text_parts: bool) -> Seq<char>
    decreases parts.len(),
{
    if parts.len() == 0 {
        Seq::empty()
    } else {
        joined_text(parts.drop_last(), only_text_parts) + part_text(parts.last(), only_text_parts)
    }
}

/// The text of a `content`: a string as it stands, a list by the texts of
/// its parts, where they are not all empty.
pub open spec fn content_text(content: JsonModel, only_text_parts: bool) -> Option<Seq<char>> {
    match content {
        JsonModel::Text(text) => Some(text),
        JsonModel::Array(parts) => {
            let joined = joined_text(parts, only_text_parts);
            if joined.len() > 0 {
                Some(joined)
            } else {
                None
            }
        },
        _ => None,
    }
}

/// The text of a user's `content`: every part with a `text` counts.
pub open spec fn user_text(content: JsonModel) -> Option<Seq<char>> {
    content_text(content, false)
}

/// The text of an assistant's `content`: only parts of type `"text"` count.
pub open spec fn assistant_text(content: JsonModel) -> Option<Seq<char>> {
    content_text(content, true)
}

/// `message.content` of a record, or null where the record has none.
pub open spec fn record_content(record: JsonModel) -> JsonModel {
    match record.member("message"@) {
        Some(message) => match message.member("content"@) {
            Some(content) => content,
            None => JsonModel::Null,
        },
        None => JsonModel::Null,
    }
}

/// The `timestamp` of a record in nanoseconds, where it has one that can
/// be read.
pub open spec fn record_nanos(record: JsonModel) -> Option<int> {
    match record.member_text("timestamp"@) {
        Some(ts) => iso_nanos(ts),
        None => None,
    }
}

/// Whether a record is known to be later than the cutoff. A record without
/// a readable timestamp is not.
pub open spec fn after_cutoff(record: JsonModel, cutoff: Option<int>) -> bool {
    match (cutoff, record_nanos(record)) {
        (Some(limit), Some(at)) => at > limit,
        _ => false,
    }
}

/// The message that a record stands for: it is of type `user` or
/// `assistant`, not later than the cutoff, and its text is not blank.
pub open spec fn record_message(record: JsonModel, cutoff: Option<int>) -> Option<MessageView> {
    let kind = record.member_text("type"@);
    if kind != Some("user"@) && kind != Some("assistant"@) {
        None
    } else if after_cutoff(record, cutoff) {
        None
    } else {
        let by_user = kind == Some("user"@);
        match content_text(record_content(record), !by_user) {
            Some(text) => if is_blank(text) {
                None
            } else {
                Some(
                    MessageView {
                        role: if by_user {
                            Role::User
                        } else {
                            Role::Assistant
                        },
                        text,
                    },
                )
            },
            None => None,
        }
    }
}

/// The assistant turn that a record stands for, as its identifier and its
/// text: the record is of type `assistant`, its text is not blank and it
/// has a `uuid`.
pub open spec fn record_turn(record: JsonModel) -> Option<(Seq<char>, Seq<char>)> {
    if record.member_text("type"@) != Some("assistant"@) {
        None
    } else {
        match (assistant_text(record_content(record)), record.member_text("uuid"@)) {
            (Some(text), Some(id)) => if is_blank(text) {
                None
            } else {
                Some((id, text))
            },
            _ => None,
        }
    }
}

/// The record on a line of the transcript. A blank line holds none, nor
/// does a line that is not JSON.
pub open spec fn line_record(line: Seq<char>) -> Option<JsonModel> {
    if is_blank(line) {
        None
    } else {
        json_parse(line)
    }
}

/// The message on a line of the transcript.
pub open spec fn line_message(line: Seq<char>, cutoff: Option<int>) -> Option<MessageView> {
    match line_record(line) {
        Some(record) => record_message(record, cutoff),
        None => None,
    }
}

/// The assistant turn on a line of the transcript.
pub open spec fn line_turn(line: Seq<char>) -> Option<(Seq<char>, Seq<char>)> {
    match line_record(line) {
        Some(record) => record_turn(record),
        None => None,
    }
}

/// The messages on the given lines, in their order.
pub open spec fn messages_of_lines(all: Seq<Seq<char>>, cutoff: Option<int>) -> Seq<MessageView>
    decreases all.len(),
{
    if all.len() == 0 {
        Seq::empty()
    } else {
        let before = messages_of_lines(all.drop_last(), cutoff);
        match line_message(all.last(), cutoff) {
            Some(message) => before.push(message),
            None => before,
        }
    }
}

/// The last assistant turn on the given lines.
pub open spec fn latest_turn_of_lines(all: Seq<Seq<char>>) -> Option<(Seq<char>, Seq<char>)>
    decreases all.len(),
{
    if all.len() == 0 {
        None
    } else {
        match line_turn(all.last()) {
            Some(turn) => Some(turn),
            None => latest_turn_of_lines(all.drop_last()),
        }
    }
}

/// The cutoff in force: the chat timestamp in nanoseconds, or none where
/// none was given or the one given cannot be read.
pub open spec fn cutoff_nanos(cutoff_ts: Option<Seq<char>>) -> Option<int> {
    match cutoff_ts {
        Some(ts) => slack_nanos(ts),
        None => None,
    }
}

/// The history that a transcript holds up to a cutoff.
pub open spec fn history(content: Seq<char>, cutoff_ts: Option<Seq<char>>) -> Seq<MessageView> {
    messages_of_lines(lines(content), cutoff_nanos(cutoff_ts))
}

/// The last assistant turn of a transcript, as its identifier and its text.
pub open spec fn latest_turn(content: Seq<char>) -> Option<(Seq<char>, Seq<char>)> {
    latest_turn_of_lines(lines(content))
}

/// The text of the last message that the assistant wrote.
pub open spec fn last_assistant_text(messages: Seq<MessageView>) -> Option<Seq<char>>
    decreases messages.len(),
{
    if messages.len() == 0 {
        None
    } else if messages.last().role == Role::Assistant {
        Some(messages.last().text)
    } else {
        last_assistant_text(messages.drop_last())
    }
}

/// An optional 128-bit number as an integer.
pub open spec fn as_int(n: Option<i128>) -> Option<int> {
    match n {
        Some(n) => Some(n as int),
        None => None,
    }
}

fn extract_text(content: &Json, only_text_parts: bool) -> (r: Option<String>)
    ensures
        match r {
            Some(text) => content_text(content@, only_text_parts) == Some(text@),
            None => content_text(content@, only_text_parts) is None,
        },
{
    if let Some(text) = content.as_text() {
        return Some(String::from_str(text));
    }
    if let Some(parts) = content.as_array() {
        let ghost models = item_views(parts@);
        let mut out = String::new();
        let mut empty = true;
        let mut i: usize = 0;
        assert(models.take(0) == Seq::<JsonModel>::empty());
        while i < parts.len()
            invariant
                i <= parts.len(),
                models == item_views(parts@),
                out@ == joined_text(models.take(i as int), only_text_parts),
                empty == (out@.len() == 0),
            decreases parts.len() - i,
        {
            let part = &parts[i];
            assert(models.take(i + 1).drop_last() == models.take(i as int));
            assert(models.take(i + 1).last() == part@);
            let counts = !only_text_parts || match part.get_text("type") {
                Some(kind) => str_eq(kind, "text"),
                None => false,
            };
            if counts {
                if let Some(text) = part.get_text("text") {
                    if !text.is_empty() {
                        empty = false;
                    }
                    out.append(text);
                }
            }
            i += 1;
        }
        assert(models.take(parts.len() as int) == models);
        if !empty {
            return Some(out);
        }
    }
    None
}

/// The text of a user's `content`.
pub fn extract_user_text(content: &Json) -> (r: Option<String>)
    ensures
        match r {
            Some(text) => user_text(content@) == Some(text@),
            None => user_text(content@) is None,
        },
{
    extract_text(content, false)
}

/// The text of an assistant's `content`.
pub fn extract_assistant_text(content: &Json) -> (r: Option<String>)
    ensures
        match r {
            Some(text) => assistant_text(content@) == Some(text@),
            None => assistant_text(content@) is None,
        },
{
    extract_text(content, true)
}

fn content_of(record: &Json) -> (r: Option<&Json>)
    ensures
        match r {
            Some(content) => record_content(record@) == content@,
            None => record_content(record@) == JsonModel::Null,
        },
{
    match record.get("message") {
        Some(message) => message.get("content"),
        None => None,
    }
}

fn text_of_record(record: &Json, only_text_parts: bool) -> (r: Option<String>)
    ensures
        match r {
            Some(text) => content_text(record_content(record@), only_text_parts) == Some(text@),
            None => content_text(record_content(record@), only_text_parts) is None,
        },
{
    match content_of(record) {
        Some(content) => extract_text(content, only_text_parts),
        None => None,
    }
}

/// The message that one record of the transcript stands for, if it stands
/// for one: see `record_message`.
pub fn parse_transcript_line(record: &Json, cutoff_ts: Option<i128>) -> (r: Option<
    TranscriptMessage,
>)
    ensures
        match r {
            Some(message) => record_message(record@, as_int(cutoff_ts)) == Some(message@),
            None => record_message(record@, as_int(cutoff_ts)) is None,
        },
{
    let kind = record.get_text("type");
    let by_user = match kind {
        Some(kind) => str_eq(kind, "user"),
        None => false,
    };
    let by_assistant = match kind {
        Some(kind) => str_eq(kind, "assistant"),
        None => false,
    };
    if !by_user && !by_assistant {
        return None;
    }
    if let Some(limit) = cutoff_ts {
        if let Some(ts) = record.get_text("timestamp") {
            if let Some(at) = parse_iso_ts_to_nanos(ts) {
                if at > limit {
                    return None;
                }
            }
        }
    }
    match text_of_record(record, !by_user) {
        Some(text) => {
            if str_is_blank(text.as_str()) {
                None
            } else {
                let role = if by_user {
                    Role::User
                } else {
                    Role::Assistant
                };
                Some(TranscriptMessage { role, text })
            }
        },
        None => None,
    }
}

/// The assistant turn that one record of the transcript stands for, as its
/// identifier and its text: see `record_turn`.
pub fn parse_assistant_turn(record: &Json) -> (r: Option<(String, String)>)
    ensures
        match r {
            Some((id, text)) => record_turn(record@) == Some((id@, text@)),
            None => record_turn(record@) is None,
        },
{
    let by_assistant = match record.get_text("type") {
        Some(kind) => str_eq(kind, "assistant"),
        None => false,
    };
    if !by_assistant {
        return None;
    }
    let text = match text_of_record(record, true) {
        Some(text) => text,
        None => {
            return None;
        },
    };
    if str_is_blank(text.as_str()) {
        return None;
    }
    match record.get_text("uuid") {
        Some(id) => Some((String::from_str(id), text)),
        None => None,
    }
}

fn record_on_line(line: &Vec<char>) -> (r: Option<Json>)
    ensures
        match r {
            Some(record) => line_record(line@) == Some(record@),
            None => line_record(line@) is None,
        },
{
    let text = string_of(line);
    if str_is_blank(text.as_str()) {
        return None;
    }
    match Json::parse(text.as_str()) {
        Ok(record) => Some(record),
        Err(_) => None,
    }
}

/// The messages of a transcript in file order. `content` is the text of the
/// transcript file. A record counts if it is of type `user` or `assistant`,
/// its text is not blank and its timestamp is not later than the cutoff. A
/// cutoff that cannot be read is no cutoff; a record whose timestamp cannot
/// be read is kept. A line that is not JSON holds no record.
pub fn read_history(content: &str, cutoff_ts: Option<&str>) -> (r: Vec<TranscriptMessage>)
    ensures
        message_views(r@) == history(content@, option_str_view(cutoff_ts)),
{
    let cutoff = match cutoff_ts {
        Some(ts) => parse_slack_ts_to_nanos(ts),
        None => None,
    };
    let chars = chars_of(content);
    let all = split_lines(&chars);
    let ghost texts = views(all@);
    let mut out: Vec<TranscriptMessage> = Vec::new();
    let mut i: usize = 0;
    assert(texts.take(0) == Seq::<Seq<char>>::empty());
    assert(message_views(out@) == Seq::<MessageView>::empty());
    while i < all.len()
        invariant
            i <= all.len(),
            texts == views(all@),
            message_views(out@) == messages_of_lines(texts.take(i as int), as_int(cutoff)),
        decreases all.len() - i,
    {
        assert(texts.take(i + 1).drop_last() == texts.take(i as int));
        assert(texts.take(i + 1).last() == all@[i as int]@);
        if let Some(record) = record_on_line(&all[i]) {
            if let Some(message) = parse_transcript_line(&record, cutoff) {
                let ghost before = out@;
                out.push(message);
                assert(message_views(out@) == message_views(before).push(message@));
            }
        }
        i += 1;
    }
    assert(texts.take(all.len() as int) == texts);
    out
}

/// The last assistant turn of a transcript, as its identifier and its text.
/// `content` is the text of the transcript file.
pub fn latest_assistant_text_uuid(content: &str) -> (r: Option<(String, String)>)
    ensures
        match r {
            Some((id, text)) => latest_turn(content@) == Some((id@, text@)),
            None => latest_turn(content@) is None,
        },
{
    let chars = chars_of(content);
    let all = split_lines(&chars);
    let ghost texts = views(all@);
    let mut latest: Option<(String, String)> = None;
    let mut i: usize = 0;
    assert(texts.take(0) == Seq::<Seq<char>>::empty());
    while i < all.len()
        invariant
            i <= all.len(),
            texts == views(all@),
            match latest {
                Some((id, text)) => latest_turn_of_lines(texts.take(i as int)) == Some(
                    (id@, text@),
                ),
                None => latest_turn_of_lines(texts.take(i as int)) is None,
            },
        decreases all.len() - i,
    {
        assert(texts.take(i + 1).drop_last() == texts.take(i as int));
        assert(texts.take(i + 1).last() == all@[i as int]@);
        if let Some(record) = record_on_line(&all[i]) {
            if let Some(turn) = parse_assistant_turn(&record) {
                latest = Some(turn);
            }
        }
        i += 1;
    }
    assert(texts.take(all.len() as int) == texts);
    latest
}

/// The text of the last message of a transcript that the assistant wrote.
/// `content` is the text of the transcript file.
pub fn latest_assistant_text(content: &str) -> (r: Option<String>)
    ensures
        match r {
            Some(text) => last_assistant_text(history(content@, None)) == Some(text@),
            None => last_assistant_text(history(content@, None)) is None,
        },
{
    let messages = read_history(content, None);
    let ghost models = message_views(messages@);
    let mut i: usize = messages.len();
    assert(models.take(i as int) == models);
    while i > 0
        invariant
            i <= messages.len(),
            models == message_views(messages@),
            models == history(content@, None),
            last_assistant_text(models) == last_assistant_text(models.take(i as int)),
        decreases i,
    {
        i -= 1;
        assert(models.take(i + 1).drop_last() == models.take(i as int));
        assert(models.take(i + 1).last() == messages@[i as int]@);
        match messages[i].role {
            Role::Assistant => {
                return Some(messages[i].text.clone());
            },
            Role::User => {},
        }
    }
    None
}

/// Whether a line of the transcript is neither blank nor JSON.
pub open spec fn is_malformed(line: Seq<char>) -> bool {
    !is_blank(line) && json_parse(line) is None
}

/// The places, counted from zero, of the malformed lines among `all`, in
/// rising order.
pub open spec fn malformed_among(all: Seq<Seq<char>>) -> Seq<int>
    decreases all.len(),
{
    if all.len() == 0 {
        Seq::empty()
    } else if is_malformed(all.last()) {
        malformed_among(all.drop_last()).push(all.len() - 1)
    } else {
        malformed_among(all.drop_last())
    }
}

/// The places, counted from zero, of the lines of a transcript that hold
/// no record though they are not blank: the lines that `read_history` and
/// `latest_assistant_text_uuid` pass over, for the log.
pub fn malformed_lines(content: &str) -> (r: Vec<usize>)
    ensures
        r@.len() == malformed_among(lines(content@)).len(),
        forall|i: int| 0 <= i < r@.len() ==> r@[i] as int == malformed_among(lines(content@))[i],
{
    let chars = chars_of(content);
    let all = split_lines(&chars);
    let ghost texts = views(all@);
    let mut out: Vec<usize> = Vec::new();
    let mut i: usize = 0;
    assert(texts.take(0) == Seq::<Seq<char>>::empty());
    while i < all.len()
        invariant
            i <= all.len(),
            texts == views(all@),
            out@.len() == malformed_among(texts.take(i as int)).len(),
            forall|j: int|
                0 <= j < out@.len() ==> out@[j] as int == malformed_among(texts.take(i as int))[j],
        decreases all.len() - i,
    {
        assert(texts.take(i + 1).drop_last() == texts.take(i as int));
        assert(texts.take(i + 1).last() == all@[i as int]@);
        let text = string_of(&all[i]);
        if !str_is_blank(text.as_str()) {
            if Json::parse(text.as_str()).is_err() {
                out.push(i);
            }
        }
        i += 1;
    }
    assert(texts.take(all.len() as int) == texts);
    out
}

/// What stands above the messages of a context block.
pub open spec fn context_heading() -> Seq<char> {
    "# Optional Conversation Context\n\n"@
        + "This file provides background context to help interpret the user's next message.\n"@
        + "You do not need to focus on it unless it is useful.\n\n"@ + "## Prior Messages\n"@
}

/// A message as a line of a context block: who wrote it, then its text.
pub open spec fn message_line(message: MessageView) -> Seq<char> {
    let label = match message.role {
        Role::User => "User: "@,
        Role::Assistant => "Assistant: "@,
    };
    (label + message.text).push('\n')
}

/// The messages as lines of a context block.
pub open spec fn message_lines(messages: Seq<MessageView>) -> Seq<char>
    decreases messages.len(),
{
    if messages.len() == 0 {
        Seq::empty()
    } else {
        message_lines(messages.drop_last()) + message_line(messages.last())
    }
}

/// The context block of a history: the heading, one line for each message
/// and an empty line. An empty history has none.
pub open spec fn history_context(messages: Seq<MessageView>) -> Option<Seq<char>> {
    if messages.len() == 0 {
        None
    } else {
        Some((context_heading() + message_lines(messages)).push('\n'))
    }
}

/// The context block of a history.
pub fn format_history_context(history: &[TranscriptMessage]) -> (r: Option<String>)
    ensures
        match r {
            Some(block) => history_context(message_views(history@)) == Some(block@),
            None => history_context(message_views(history@)) is None,
        },
        r is None <==> history@.len() == 0,
{
    if history.len() == 0 {
        return None;
    }
    let ghost models = message_views(history@);
    let mut out = String::new();
    out.append("# Optional Conversation Context\n\n");
    out.append(
        "This file provides background context to help interpret the user's next message.\n",
    );
    out.append("You do not need to focus on it unless it is useful.\n\n");
    out.append("## Prior Messages\n");
    let mut i: usize = 0;
    assert(models.take(0) == Seq::<MessageView>::empty());
    assert(out@ == context_heading() + message_lines(models.take(0)));
    while i < history.len()
        invariant
            i <= history.len(),
            models == message_views(history@),
            out@ == context_heading() + message_lines(models.take(i as int)),
        decreases history.len() - i,
    {
        let message = &history[i];
        assert(models.take(i + 1).drop_last() == models.take(i as int));
        assert(models.take(i + 1).last() == message@);
        let ghost before = out@;
        match message.role {
            Role::User => {
                out.append("User: ");
            },
            Role::Assistant => {
                out.append("Assistant: ");
            },
        }
        out.append(message.text.as_str());
        push_char(&mut out, '\n');
        assert(out@ == before + message_line(message@));
        i += 1;
    }
    assert(models.take(history.len() as int) == models);
    push_char(&mut out, '\n');
    Some(out)
}

/// The context block that a transcript yields for a message written at
/// `cutoff_ts`: the block of its history up to then. `content` is the text
/// of the transcript file.
pub fn history_context_of(content: &str, cutoff_ts: Option<&str>) -> (r: Option<String>)
    ensures
        match r {
            Some(block) => history_context(history(content@, option_str_view(cutoff_ts))) == Some(
                block@,
            ),
            None => history_context(history(content@, option_str_view(cutoff_ts))) is None,
        },
{
    let messages = read_history(content, cutoff_ts);
    format_history_context(messages.as_slice())
}

/// Whether `line` holds a record that stands for `message` and is not
/// known to be later than the cutoff: where both the cutoff and the
/// record's timestamp can be read, the timestamp is not the later one.
pub open spec fn yields(line: Seq<char>, message: MessageView, cutoff: Option<int>) -> bool {
    match line_record(line) {
        Some(record) => record_message(record, cutoff) == Some(message) && (match (
            cutoff,
            record_nanos(record),
        ) {
            (Some(limit), Some(at)) => at <= limit,
            _ => true,
        }),
        None => false,
    }
}

/// Every message on the lines has text that is not blank and stands in a
/// record that is not known to be later than the cutoff.
pub proof fn lemma_messages_of_lines(all: Seq<Seq<char>>, cutoff: Option<int>, i: int)
    requires
        0 <= i < messages_of_lines(all, cutoff).len(),
    ensures
        !is_blank(messages_of_lines(all, cutoff)[i].text),
        exists|k: int| 0 <= k < all.len() && #[trigger] yields(
            all[k],
            messages_of_lines(all, cutoff)[i],
            cutoff,
        ),
    decreases all.len(),
{
    let before = messages_of_lines(all.drop_last(), cutoff);
    let message = messages_of_lines(all, cutoff)[i];
    if i < before.len() {
        lemma_messages_of_lines(all.drop_last(), cutoff, i);
        let k = choose|k: int|
            0 <= k < all.drop_last().len() && #[trigger] yields(
                all.drop_last()[k],
                message,
                cutoff,
            );
        assert(all.drop_last()[k] == all[k]);
        assert(yields(all[k], message, cutoff));
    } else {
        assert(yields(all[all.len() - 1], message, cutoff));
    }
}

/// The history of a transcript holds no blank message, and none of a
/// record whose timestamp can be read and is later than a cutoff that can
/// be read: each of its messages stands on a line of the transcript in a
/// record that is not later than the cutoff.
pub proof fn lemma_history_within_cutoff(content: Seq<char>, cutoff_ts: Option<Seq<char>>, i: int)
    requires
        0 <= i < history(content, cutoff_ts).len(),
    ensures
        !is_blank(history(content, cutoff_ts)[i].text),
        exists|k: int| 0 <= k < lines(content).len() && #[trigger] yields(
            lines(content)[k],
            history(content, cutoff_ts)[i],
            cutoff_nanos(cutoff_ts),
        ),
{
    lemma_messages_of_lines(lines(content), cutoff_nanos(cutoff_ts), i);
}

} // verus!
