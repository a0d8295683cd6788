//! Assistant conversation data.
//!
//! Requests to the assistant service happen outside this core; here live the
//! error taxonomy and the conversation history entries.

use vstd::prelude::*;

verus! {

/// Assistant failures.
#[derive(Debug, Clone)]
pub enum GeminiError {
    /// No API key configured
    NoApiKey,
    /// Client creation failed
    ClientError(String),
    /// An API request failed
    RequestError(String),
}

/// Who said one message of the conversation.
#[derive(Debug, Clone, Copy, PartialEq, Eq, Structural)]
pub enum MessageRole {
    User,
    Assistant,
}

/// One message in the conversation history.
#[derive(Debug, Clone)]
pub struct ChatMessage {
    pub role: MessageRole,
    pub content: String,
}

impl ChatMessage {
    /// A message the user typed.
    pub fn from_user(content: String) -> (r: Self)
        ensures
            r.role == MessageRole::User,
            r.content == content,
    {
        ChatMessage { role: MessageRole::User, content }
    }

    /// A message the assistant answered.
    pub fn from_assistant(content: String) -> (r: Self)
        ensures
            r.role == MessageRole::Assistant,
            r.content == content,
    {
        ChatMessage { role: MessageRole::Assistant, content }
    }
}

} // verus!
