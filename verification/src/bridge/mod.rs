pub mod cache;
pub mod tools;

pub use tools::{ArgField, ArgType, ToolEntry, ToolKind, ToolStatus};
