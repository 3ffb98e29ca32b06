pub mod fill;
pub mod config;
pub mod utils;

pub use fill::{PromptContext, PromptKind};
pub use config::PromptsConfig;
