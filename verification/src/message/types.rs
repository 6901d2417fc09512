use vstd::prelude::*;

use crate::clock::Timestamp;
use crate::deps::new_v4_string;
pub use crate::deps::is_v4_uuid_text;

verus! {

/// Identifier of a chat message.
#[derive(Debug, Clone, PartialEq, Eq, Hash)]
pub struct MessageId(String);

impl View for MessageId {
    type V = Seq<char>;

    closed spec fn view(&self) -> Seq<char> {
        self.0@
    }
}

/// A fresh random identifier: the text of a new version-4 UUID.
pub fn random_uuid_string() -> (s: String)
    ensures
        is_v4_uuid_text(s@),
{
    new_v4_string()
}

impl<'a> From<&'a str> for MessageId {
    /// The identifier whose text is `s`, as one read back from storage.
    fn from(s: &'a str) -> (id: Self)
        ensures
            id@ == s@,
    {
        MessageId(String::from_str(s))
    }
}

impl<'a> vstd::std_specs::convert::FromSpecImpl<&'a str> for MessageId {
    /// `from` is described by its own `ensures` (the text is `s`): two
    /// identifiers with the same text need not be the same value in a
    /// specification.
    open spec fn obeys_from_spec() -> bool {
        false
    }

    open spec fn from_spec(s: &'a str) -> MessageId {
        choose|id: MessageId| id@ == s@
    }
}

impl MessageId {
    /// A new random identifier.
    pub fn new() -> (id: Self)
        ensures
            is_v4_uuid_text(id@),
    {
        MessageId(random_uuid_string())
    }

    /// The identifier's text.
    pub fn as_str(&self) -> (s: &str)
        ensures
            s@ == self@,
    {
        self.0.as_str()
    }
}

/// Identifier of an annotation on a message.
#[derive(Debug, Clone, PartialEq, Eq, Hash)]
pub struct AnnotationId(String);

impl View for AnnotationId {
    type V = Seq<char>;

    closed spec fn view(&self) -> Seq<char> {
        self.0@
    }
}

impl<'a> From<&'a str> for AnnotationId {
    /// The identifier whose text is `s`, as one read back from storage.
    fn from(s: &'a str) -> (id: Self)
        ensures
            id@ == s@,
    {
        AnnotationId(String::from_str(s))
    }
}

impl<'a> vstd::std_specs::convert::FromSpecImpl<&'a str> for AnnotationId {
    /// `from` is described by its own `ensures` (the text is `s`): two
    /// identifiers with the same text need not be the same value in a
    /// specification.
    open spec fn obeys_from_spec() -> bool {
        false
    }

    open spec fn from_spec(s: &'a str) -> AnnotationId {
        choose|id: AnnotationId| id@ == s@
    }
}

impl AnnotationId {
    /// The identifier's text.
    pub fn as_str(&self) -> (s: &str)
        ensures
            s@ == self@,
    {
        self.0.as_str()
    }

    /// A new random identifier.
    pub fn new() -> (id: Self)
        ensures
            is_v4_uuid_text(id@),
    {
        AnnotationId(random_uuid_string())
    }
}

/// A span of a message's text, by position.
#[derive(Debug, Clone, Copy, PartialEq, Eq)]
pub struct TextRange {
    pub start: usize,
    pub end: usize,
}

/// Who wrote a message.
#[derive(Debug, Clone)]
pub enum MessageSender {
    User,
    Agent { id: String },
    System,
}

/// A message of the group chat between the user and the agents.
#[derive(Debug, Clone)]
pub struct ChatMessage {
    pub id: MessageId,
    pub sender: MessageSender,
    pub content: String,
    pub timestamp: Timestamp,
    pub annotations: Vec<AnnotationId>,
}

impl ChatMessage {
    /// A message from the user, stamped now.
    pub fn user(content: &str) -> (m: Self)
        ensures
            m.sender is User,
            m.content@ == content@,
            is_v4_uuid_text(m.id@),
            m.annotations@.len() == 0,
            m.timestamp.secs >= 0,
            m.timestamp.nanos < 1_000_000_000,
    {
        ChatMessage {
            id: MessageId::new(),
            sender: MessageSender::User,
            content: String::from_str(content),
            timestamp: Timestamp::now(),
            annotations: Vec::new(),
        }
    }

    /// A message from the agent `agent_id`, stamped now.
    pub fn agent(agent_id: &str, content: &str) -> (m: Self)
        ensures
            m.sender matches MessageSender::Agent { id } && id@ == agent_id@,
            m.content@ == content@,
            is_v4_uuid_text(m.id@),
            m.annotations@.len() == 0,
            m.timestamp.secs >= 0,
            m.timestamp.nanos < 1_000_000_000,
    {
        ChatMessage {
            id: MessageId::new(),
            sender: MessageSender::Agent { id: String::from_str(agent_id) },
            content: String::from_str(content),
            timestamp: Timestamp::now(),
            annotations: Vec::new(),
        }
    }

    /// A message from the system, stamped now.
    pub fn system(content: &str) -> (m: Self)
        ensures
            m.sender is System,
            m.content@ == content@,
            is_v4_uuid_text(m.id@),
            m.annotations@.len() == 0,
            m.timestamp.secs >= 0,
            m.timestamp.nanos < 1_000_000_000,
    {
        ChatMessage {
            id: MessageId::new(),
            sender: MessageSender::System,
            content: String::from_str(content),
            timestamp: Timestamp::now(),
            annotations: Vec::new(),
        }
    }
}

/// One event of a streamed answer.
#[derive(Debug, Clone)]
pub enum StreamEvent {
    ThinkingStart { agent: String },
    ThinkingDelta { agent: String, delta: String },
    ThinkingEnd { agent: String },
    ContentStart { agent: String },
    ContentDelta { agent: String, delta: String },
    ContentEnd { agent: String },
    Annotation {
        id: String,
        agent: String,
        position: TextRange,
        content: String,
        severity: String,
    },
    Intervention { agent: String, message: String },
    StageChange { from: String, to: String },
    Complete,
    Error { agent: String, message: String },
}

/// A `StreamEvent` with its texts seen as character sequences.
pub enum StreamEventView {
    ThinkingStart { agent: Seq<char> },
    ThinkingDelta { agent: Seq<char>, delta: Seq<char> },
    ThinkingEnd { agent: Seq<char> },
    ContentStart { agent: Seq<char> },
    ContentDelta { agent: Seq<char>, delta: Seq<char> },
    ContentEnd { agent: Seq<char> },
    Annotation {
        id: Seq<char>,
        agent: Seq<char>,
        position: TextRange,
        content: Seq<char>,
        severity: Seq<char>,
    },
    Intervention { agent: Seq<char>, message: Seq<char> },
    StageChange { from: Seq<char>, to: Seq<char> },
    Complete,
    Error { agent: Seq<char>, message: Seq<char> },
}

impl View for StreamEvent {
    type V = StreamEventView;

    open spec fn view(&self) -> StreamEventView {
        match self {
            StreamEvent::ThinkingStart { agent } => StreamEventView::ThinkingStart { agent: agent@ },
            StreamEvent::ThinkingDelta { agent, delta } => StreamEventView::ThinkingDelta {
                agent: agent@,
                delta: delta@,
            },
            StreamEvent::ThinkingEnd { agent } => StreamEventView::ThinkingEnd { agent: agent@ },
            StreamEvent::ContentStart { agent } => StreamEventView::ContentStart { agent: agent@ },
            StreamEvent::ContentDelta { agent, delta } => StreamEventView::ContentDelta {
                agent: agent@,
                delta: delta@,
            },
            StreamEvent::ContentEnd { agent } => StreamEventView::ContentEnd { agent: agent@ },
            StreamEvent::Annotation { id, agent, position, content, severity } =>
                StreamEventView::Annotation {
                id: id@,
                agent: agent@,
                position: *position,
                content: content@,
                severity: severity@,
            },
            StreamEvent::Intervention { agent, message } => StreamEventView::Intervention {
                agent: agent@,
                message: message@,
            },
            StreamEvent::StageChange { from, to } => StreamEventView::StageChange {
                from: from@,
                to: to@,
            },
            StreamEvent::Complete => StreamEventView::Complete,
            StreamEvent::Error { agent, message } => StreamEventView::Error {
                agent: agent@,
                message: message@,
            },
        }
    }
}

impl StreamEvent {
    /// A copy of the event, equal to it.
    pub fn duplicate(&self) -> (e: Self)
        ensures
            e == *self,
    {
        match self {
            StreamEvent::ThinkingStart { agent } => StreamEvent::ThinkingStart {
                agent: agent.clone(),
            },
            StreamEvent::ThinkingDelta { agent, delta } => StreamEvent::ThinkingDelta {
                agent: agent.clone(),
                delta: delta.clone(),
            },
            StreamEvent::ThinkingEnd { agent } => StreamEvent::ThinkingEnd { agent: agent.clone() },
            StreamEvent::ContentStart { agent } => StreamEvent::ContentStart {
                agent: agent.clone(),
            },
            StreamEvent::ContentDelta { agent, delta } => StreamEvent::ContentDelta {
                agent: agent.clone(),
                delta: delta.clone(),
            },
            StreamEvent::ContentEnd { agent } => StreamEvent::ContentEnd { agent: agent.clone() },
            StreamEvent::Annotation { id, agent, position, content, severity } =>
                StreamEvent::Annotation {
                id: id.clone(),
                agent: agent.clone(),
                position: *position,
                content: content.clone(),
                severity: severity.clone(),
            },
            StreamEvent::Intervention { agent, message } => StreamEvent::Intervention {
                agent: agent.clone(),
                message: message.clone(),
            },
            StreamEvent::StageChange { from, to } => StreamEvent::StageChange {
                from: from.clone(),
                to: to.clone(),
            },
            StreamEvent::Complete => StreamEvent::Complete,
            StreamEvent::Error { agent, message } => StreamEvent::Error {
                agent: agent.clone(),
                message: message.clone(),
            },
        }
    }
}

impl Default for MessageId {
    fn default() -> (id: Self)
        ensures
            is_v4_uuid_text(id@),
    {
        Self::new()
    }
}

} // verus!
