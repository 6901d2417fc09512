use vstd::prelude::*;

use super::types::{is_v4_uuid_text, ChatMessage, MessageId, MessageSender};
use crate::clock::Timestamp;

verus! {

/// Step-by-step construction of a `ChatMessage`. A sender and a content are
/// required; the timestamp defaults to the time of `build`.
pub struct MessageBuilder {
    sender: Option<MessageSender>,
    content: Option<String>,
    timestamp: Option<Timestamp>,
}

impl MessageBuilder {
    /// The sender set so far.
    pub closed spec fn sender_of(&self) -> Option<MessageSender> {
        self.sender
    }

    /// The content set so far.
    pub closed spec fn content_of(&self) -> Option<String> {
        self.content
    }

    /// The timestamp set so far.
    pub closed spec fn timestamp_of(&self) -> Option<Timestamp> {
        self.timestamp
    }

    /// A builder with nothing set.
    pub fn new() -> (b: Self)
        ensures
            b.sender_of() is None,
            b.content_of() is None,
            b.timestamp_of() is None,
    {
        MessageBuilder { sender: None, content: None, timestamp: None }
    }

    /// The message is from the user.
    pub fn user(self) -> (b: Self)
        ensures
            b.sender_of() == Some(MessageSender::User),
            b.content_of() == self.content_of(),
            b.timestamp_of() == self.timestamp_of(),
    {
        MessageBuilder { sender: Some(MessageSender::User), ..self }
    }

    /// The message is from the agent `id`.
    pub fn agent(self, id: &str) -> (b: Self)
        ensures
            b.sender_of() matches Some(MessageSender::Agent { id: a }) && a@ == id@,
            b.content_of() == self.content_of(),
            b.timestamp_of() == self.timestamp_of(),
    {
        MessageBuilder { sender: Some(MessageSender::Agent { id: String::from_str(id) }), ..self }
    }

    /// The message is from the system.
    pub fn system(self) -> (b: Self)
        ensures
            b.sender_of() == Some(MessageSender::System),
            b.content_of() == self.content_of(),
            b.timestamp_of() == self.timestamp_of(),
    {
        MessageBuilder { sender: Some(MessageSender::System), ..self }
    }

    /// The message's text.
    pub fn content(self, content: &str) -> (b: Self)
        ensures
            b.sender_of() == self.sender_of(),
            b.content_of() matches Some(c) && c@ == content@,
            b.timestamp_of() == self.timestamp_of(),
    {
        MessageBuilder { content: Some(String::from_str(content)), ..self }
    }

    /// The message's timestamp.
    pub fn timestamp(self, timestamp: Timestamp) -> (b: Self)
        ensures
            b.sender_of() == self.sender_of(),
            b.content_of() == self.content_of(),
            b.timestamp_of() == Some(timestamp),
    {
        MessageBuilder { timestamp: Some(timestamp), ..self }
    }

    /// The message, with a fresh id and no annotations; an error when the
    /// sender or, failing that, the content was not set.
    pub fn build(self) -> (r: Result<ChatMessage, &'static str>)
        ensures
            self.sender_of() is None ==> r == Err::<ChatMessage, &str>("Sender is required"),
            self.sender_of() is Some && self.content_of() is None ==> r == Err::<ChatMessage, &str>(
                "Content is required",
            ),
            self.sender_of() is Some && self.content_of() is Some ==> (r matches Ok(m) && m.sender
                == self.sender_of()->0 && m.content == self.content_of()->0 && m.annotations@.len() == 0
                && is_v4_uuid_text(m.id@) && (self.timestamp_of() matches Some(t) ==> m.timestamp
                == t) && (self.timestamp_of() is None ==> m.timestamp.secs >= 0
                && m.timestamp.nanos < 1_000_000_000)),
    {
        let sender = match self.sender {
            Some(s) => s,
            None => return Err("Sender is required"),
        };
        let content = match self.content {
            Some(c) => c,
            None => return Err("Content is required"),
        };
        let timestamp = match self.timestamp {
            Some(t) => t,
            None => Timestamp::now(),
        };
        Ok(
            ChatMessage {
                id: MessageId::new(),
                sender,
                content,
                timestamp,
                annotations: Vec::new(),
            },
        )
    }
}

impl Default for MessageBuilder {
    fn default() -> (b: Self)
        ensures
            b.sender_of() is None,
            b.content_of() is None,
            b.timestamp_of() is None,
    {
        Self::new()
    }
}

} // verus!
