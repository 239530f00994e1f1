//! The two outbound message shapes: chat messages and presence notices.

use vstd::prelude::*;

verus! {

/// The author of a chat message.
#[derive(Debug, PartialEq, Eq)]
pub struct Sender {
    pub id: String,
    pub username: String,
}

/// Mathematical value of a [`Sender`].
pub struct SenderView {
    pub id: Seq<char>,
    pub username: Seq<char>,
}

impl View for Sender {
    type V = SenderView;

    open spec fn view(&self) -> SenderView {
        SenderView { id: self.id@, username: self.username@ }
    }
}

/// A message on its way to the members of a room.
#[derive(Debug, PartialEq, Eq)]
pub enum Envelope {
    /// Text sent by a member, with the metadata every chat message carries.
    ChatMessage { id: String, sender: Sender, content: String, timestamp: String },
    /// A human-readable notice that somebody joined or left.
    PresenceUpdate { text: String },
}

/// Mathematical value of an [`Envelope`].
pub enum EnvelopeView {
    ChatMessage { id: Seq<char>, sender: SenderView, content: Seq<char>, timestamp: Seq<char> },
    PresenceUpdate { text: Seq<char> },
}

impl View for Envelope {
    type V = EnvelopeView;

    open spec fn view(&self) -> EnvelopeView {
        match self {
            Envelope::ChatMessage { id, sender, content, timestamp } => EnvelopeView::ChatMessage {
                id: id@,
                sender: sender@,
                content: content@,
                timestamp: timestamp@,
            },
            Envelope::PresenceUpdate { text } => EnvelopeView::PresenceUpdate { text: text@ },
        }
    }
}

/// The chat message a user sends under its own identity: with no separate
/// display name the user id stands for both the sender's id and its name.
pub open spec fn chat_message_of(
    id: Seq<char>,
    user_id: Seq<char>,
    content: Seq<char>,
    timestamp: Seq<char>,
) -> EnvelopeView {
    EnvelopeView::ChatMessage {
        id,
        sender: SenderView { id: user_id, username: user_id },
        content,
        timestamp,
    }
}

/// The notice that announces a user's arrival.
pub open spec fn joined_notice_of(user_id: Seq<char>) -> EnvelopeView {
    EnvelopeView::PresenceUpdate { text: "User "@ + user_id + " joined the room"@ }
}

/// The notice that announces a user's departure.
pub open spec fn left_notice_of(user_id: Seq<char>) -> EnvelopeView {
    EnvelopeView::PresenceUpdate { text: "User "@ + user_id + " left the room"@ }
}

/// The identity given to a connection that drew `token`.
pub open spec fn user_id_of(token: Seq<char>) -> Seq<char> {
    "user-"@ + token
}

impl Envelope {
    /// Builds the chat message that `user_id` sends with the given message
    /// id, content and timestamp.
    pub fn chat_message(id: String, user_id: &str, content: String, timestamp: String) -> (e:
        Envelope)
        ensures
            e@ == chat_message_of(id@, user_id@, content@, timestamp@),
    {
        let sender = Sender { id: String::from_str(user_id), username: String::from_str(user_id) };
        Envelope::ChatMessage { id, sender, content, timestamp }
    }

    /// Builds the presence notice for the arrival of `user_id`.
    pub fn joined_notice(user_id: &str) -> (e: Envelope)
        ensures
            e@ == joined_notice_of(user_id@),
    {
        let mut text = String::from_str("User ");
        text.append(user_id);
        text.append(" joined the room");
        Envelope::PresenceUpdate { text }
    }

    /// Builds the presence notice for the departure of `user_id`.
    pub fn left_notice(user_id: &str) -> (e: Envelope)
        ensures
            e@ == left_notice_of(user_id@),
    {
        let mut text = String::from_str("User ");
        text.append(user_id);
        text.append(" left the room");
        Envelope::PresenceUpdate { text }
    }
}

/// Derives a connection's user id from the random token drawn for it.
pub fn user_id_from(token: &str) -> (user_id: String)
    ensures
        user_id@ == user_id_of(token@),
{
    let mut user_id = String::from_str("user-");
    user_id.append(token);
    user_id
}

} // verus!
