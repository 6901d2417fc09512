//! Chat messages, the events of a streamed answer and their SSE framing.

pub mod builder;
pub mod protocol;
pub mod stream;
pub mod types;

pub use builder::MessageBuilder;
pub use protocol::SSEProtocol;
pub use stream::{MessageStream, StreamBuilder};
pub use types::{
    AnnotationId, ChatMessage, MessageId, MessageSender, StreamEvent, StreamEventView, TextRange,
};
