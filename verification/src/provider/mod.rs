//! What the library sends to, and receives from, a language-model provider.

use vstd::prelude::*;

verus! {

/// A provider's failure, as text.
pub struct ProviderError(pub String);

/// Who speaks in a message to the model.
#[derive(Debug, Clone)]
pub enum MessageRole {
    System,
    User,
    Assistant,
}

/// A request to the model: the conversation so far and, optionally, the
/// model to use.
#[derive(Debug, Clone)]
pub struct ChatRequest {
    pub messages: Vec<ChatMessage>,
    pub model: Option<String>,
}

/// One message of a conversation with the model.
#[derive(Debug, Clone)]
pub struct ChatMessage {
    pub role: MessageRole,
    pub content: String,
}

/// The model's reply and the model that gave it.
#[derive(Debug, Clone)]
pub struct ChatResponse {
    pub content: String,
    pub model: String,
}

} // verus!
