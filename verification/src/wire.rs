//! The wire format: each envelope travels as one JSON object in a text frame.

use crate::envelope::{Envelope, EnvelopeView, SenderView};
use vstd::prelude::*;

verus! {

/// The error of serde_json, carried through opaquely.
#[verifier::external_type_specification]
#[verifier::external_body]
pub struct ExJsonError(serde_json::Error);

/// The JSON string literal that serde_json writes for the text `s`, quotes
/// and escapes included; `None` for a text that it refuses.
pub uninterp spec fn json_string_text(s: Seq<char>) -> Option<Seq<char>>;

/// Calls `serde_json::to_string` on a string slice. The result depends on
/// the text alone: the contract gives it the name [`json_string_text`] and
/// claims nothing else of it, neither that it succeeds nor what it holds.
#[verifier::external_body]
fn json_string(s: &str) -> (r: Result<String, serde_json::Error>)
    ensures
        match r {
            Ok(text) => json_string_text(s@) == Some(text@),
            Err(_) => json_string_text(s@) is None,
        },
{
    serde_json::to_string(s)
}

/// The frame of a chat message, given the JSON text of each of its fields.
/// The members of every object stand in the order of their keys.
pub open spec fn chat_frame_text(
    id: Seq<char>,
    sender_id: Seq<char>,
    username: Seq<char>,
    content: Seq<char>,
    timestamp: Seq<char>,
) -> Seq<char> {
    "{\"message\":{\"content\":"@ + content + ",\"id\":"@ + id + ",\"sender\":{\"id\":"@
        + sender_id + ",\"username\":"@ + username + "},\"timestamp\":"@ + timestamp
        + "},\"type\":\"chatMessage\"}"@
}

/// The frame of a presence notice, given the JSON text of its message.
pub open spec fn presence_frame_text(message: Seq<char>) -> Seq<char> {
    "{\"message\":"@ + message + ",\"type\":\"presenceUpdate\"}"@
}

/// The frame sent in place of an envelope that cannot be serialized.
pub open spec fn fallback_frame_text() -> Seq<char> {
    "{}"@
}

/// The text frame that carries `envelope`.
pub open spec fn wire_text(envelope: EnvelopeView) -> Seq<char> {
    match envelope {
        EnvelopeView::ChatMessage { id, sender, content, timestamp } => {
            if json_string_text(id) is Some && json_string_text(sender.id) is Some
                && json_string_text(sender.username) is Some && json_string_text(content) is Some
                && json_string_text(timestamp) is Some {
                chat_frame_text(
                    json_string_text(id)->0,
                    json_string_text(sender.id)->0,
                    json_string_text(sender.username)->0,
                    json_string_text(content)->0,
                    json_string_text(timestamp)->0,
                )
            } else {
                fallback_frame_text()
            }
        },
        EnvelopeView::PresenceUpdate { text } => match json_string_text(text) {
            Some(message) => presence_frame_text(message),
            None => fallback_frame_text(),
        },
    }
}

/// Assembles the frame of a chat message from the JSON text of its fields.
pub fn chat_frame(id: &str, sender_id: &str, username: &str, content: &str, timestamp: &str) -> (frame:
    String)
    ensures
        frame@ == chat_frame_text(id@, sender_id@, username@, content@, timestamp@),
{
    let mut frame = String::from_str("{\"message\":{\"content\":");
    frame.append(content);
    frame.append(",\"id\":");
    frame.append(id);
    frame.append(",\"sender\":{\"id\":");
    frame.append(sender_id);
    frame.append(",\"username\":");
    frame.append(username);
    frame.append("},\"timestamp\":");
    frame.append(timestamp);
    frame.append("},\"type\":\"chatMessage\"}");
    frame
}

/// Assembles the frame of a presence notice from the JSON text of its
/// message.
pub fn presence_frame(message: &str) -> (frame: String)
    ensures
        frame@ == presence_frame_text(message@),
{
    let mut frame = String::from_str("{\"message\":");
    frame.append(message);
    frame.append(",\"type\":\"presenceUpdate\"}");
    frame
}

/// The frame sent in place of an envelope that cannot be serialized.
pub fn fallback_frame() -> (frame: String)
    ensures
        frame@ == fallback_frame_text(),
{
    String::from_str("{}")
}

/// Serializes an envelope into the text frame that carries it.
pub fn encode(envelope: &Envelope) -> (frame: String)
    ensures
        frame@ == wire_text(envelope@),
{
    match envelope {
        Envelope::ChatMessage { id, sender, content, timestamp } => {
            let id = match json_string(id.as_str()) {
                Ok(text) => text,
                Err(_) => {
                    return fallback_frame();
                },
            };
            let sender_id = match json_string(sender.id.as_str()) {
                Ok(text) => text,
                Err(_) => {
                    return fallback_frame();
                },
            };
            let username = match json_string(sender.username.as_str()) {
                Ok(text) => text,
                Err(_) => {
                    return fallback_frame();
                },
            };
            let content = match json_string(content.as_str()) {
                Ok(text) => text,
                Err(_) => {
                    return fallback_frame();
                },
            };
            let timestamp = match json_string(timestamp.as_str()) {
                Ok(text) => text,
                Err(_) => {
                    return fallback_frame();
                },
            };
            chat_frame(
                id.as_str(),
                sender_id.as_str(),
                username.as_str(),
                content.as_str(),
                timestamp.as_str(),
            )
        },
        Envelope::PresenceUpdate { text } => match json_string(text.as_str()) {
            Ok(message) => presence_frame(message.as_str()),
            Err(_) => fallback_frame(),
        },
    }
}

/// Whether `part` stands in `frame` from position `at` on, whole and
/// unchanged.
pub open spec fn stands_at(frame: Seq<char>, part: Seq<char>, at: int) -> bool {
    0 <= at && at + part.len() <= frame.len() && frame.subrange(at, at + part.len()) == part
}

/// Every field of a chat message reaches the wire. Where each of the five
/// fields has a JSON text, the frame is the chat frame of exactly these
/// texts, and each of them stands in it whole and unchanged, behind its key:
/// the content first, then the id, the sender's id, the sender's name and
/// the timestamp, with nothing but the fixed punctuation between them.
pub proof fn lemma_chat_frame_holds_every_field(
    id: Seq<char>,
    sender: SenderView,
    content: Seq<char>,
    timestamp: Seq<char>,
)
    requires
        json_string_text(id) is Some,
        json_string_text(sender.id) is Some,
        json_string_text(sender.username) is Some,
        json_string_text(content) is Some,
        json_string_text(timestamp) is Some,
    ensures
        ({
            let frame = wire_text(EnvelopeView::ChatMessage { id, sender, content, timestamp });
            let content_text = json_string_text(content)->0;
            let id_text = json_string_text(id)->0;
            let sender_id_text = json_string_text(sender.id)->0;
            let username_text = json_string_text(sender.username)->0;
            let timestamp_text = json_string_text(timestamp)->0;
            let content_at = "{\"message\":{\"content\":"@.len() as int;
            let id_at = content_at + content_text.len() + ",\"id\":"@.len();
            let sender_id_at = id_at + id_text.len() + ",\"sender\":{\"id\":"@.len();
            let username_at = sender_id_at + sender_id_text.len() + ",\"username\":"@.len();
            let timestamp_at = username_at + username_text.len() + "},\"timestamp\":"@.len();
            &&& frame == chat_frame_text(
                id_text,
                sender_id_text,
                username_text,
                content_text,
                timestamp_text,
            )
            &&& stands_at(frame, content_text, content_at)
            &&& stands_at(frame, id_text, id_at)
            &&& stands_at(frame, sender_id_text, sender_id_at)
            &&& stands_at(frame, username_text, username_at)
            &&& stands_at(frame, timestamp_text, timestamp_at)
            &&& frame.len() == timestamp_at + timestamp_text.len()
                + "},\"type\":\"chatMessage\"}"@.len()
        }),
{
    let frame = wire_text(EnvelopeView::ChatMessage { id, sender, content, timestamp });
    let content_text = json_string_text(content)->0;
    let id_text = json_string_text(id)->0;
    let sender_id_text = json_string_text(sender.id)->0;
    let username_text = json_string_text(sender.username)->0;
    let timestamp_text = json_string_text(timestamp)->0;
    let content_at = "{\"message\":{\"content\":"@.len() as int;
    let id_at = content_at + content_text.len() + ",\"id\":"@.len();
    let sender_id_at = id_at + id_text.len() + ",\"sender\":{\"id\":"@.len();
    let username_at = sender_id_at + sender_id_text.len() + ",\"username\":"@.len();
    let timestamp_at = username_at + username_text.len() + "},\"timestamp\":"@.len();
    assert(frame.subrange(content_at, content_at + content_text.len()) =~= content_text);
    assert(frame.subrange(id_at, id_at + id_text.len()) =~= id_text);
    assert(frame.subrange(sender_id_at, sender_id_at + sender_id_text.len()) =~= sender_id_text);
    assert(frame.subrange(username_at, username_at + username_text.len()) =~= username_text);
    assert(frame.subrange(timestamp_at, timestamp_at + timestamp_text.len()) =~= timestamp_text);
}

} // verus!
