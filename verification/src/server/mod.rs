pub mod classify;
pub mod messages;

pub use classify::{classify_request, QueryKind};
