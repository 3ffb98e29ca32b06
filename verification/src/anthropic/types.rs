//! The messages API that the bridge serves: requests as it reads them,
//! responses as it writes them.
use vstd::prelude::*;

use crate::json::JsonValue;

verus! {

/// A piece of what the user said.
#[derive(Debug)]
pub enum UserSegment {
    Text(String),
    Code(String),
    ToolResult(String),
}

/// A request to the messages API.
#[derive(Debug)]
pub struct MessagesRequest {
    pub model: String,
    pub messages: Vec<Message>,
    pub system: Option<JsonValue>,
    pub max_tokens: Option<u32>,
    pub stream: Option<bool>,
    pub tools: Option<Vec<JsonValue>>,
    pub tool_choice: Option<JsonValue>,
}

/// Who wrote a message.
#[derive(Clone, Copy, Debug, PartialEq, Eq, Structural)]
pub enum Role {
    User,
    Assistant,
}

/// One message of a conversation.
#[derive(Debug)]
pub struct Message {
    pub role: Role,
    pub content: MessageContent,
}

/// A message's content: plain text, or blocks.
#[derive(Debug)]
pub enum MessageContent {
    Text(String),
    Blocks(Vec<ContentBlock>),
}

/// The content of a tool result: a string, an array of parts, or any other
/// JSON value, held in its compact serialized form.
#[derive(Debug)]
pub enum ToolResultContent {
    Text(String),
    Parts(Vec<JsonValue>),
    Other(String),
}

/// One block of a message.
#[derive(Debug)]
pub enum ContentBlock {
    Text { text: String },
    ToolUse { id: String, name: String, input: JsonValue },
    ToolResult { tool_use_id: String, content: ToolResultContent },
}

/// Token counts of a response.
pub struct UsageInfo {
    pub input_tokens: u32,
    pub output_tokens: u32,
}

/// A response of the messages API.
pub struct MessagesResponse {
    pub id: String,
    pub kind: String,
    pub role: String,
    pub content: Vec<ResponseContent>,
    pub model: String,
    pub stopreason: String,
    pub usage: UsageInfo,
}

/// One block of a response.
pub struct ResponseContent {
    pub kind: String,
    pub text: String,
}

} // verus!
