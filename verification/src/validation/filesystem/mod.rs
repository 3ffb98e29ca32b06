pub mod guard;
pub mod types;

pub use types::{FsRequirement, ResolveError};
