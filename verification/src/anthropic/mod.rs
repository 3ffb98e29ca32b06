pub mod segment;
pub mod sse;
pub mod types;

pub use segment::serialize_segments;
pub use sse::SseEvent;
pub use types::{
    ContentBlock, Message, MessageContent, MessagesRequest, MessagesResponse, ResponseContent,
    Role, ToolResultContent, UsageInfo, UserSegment,
};
