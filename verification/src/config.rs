//! The bridge's configuration.
use vstd::prelude::*;

use crate::prompts::config::{first_fault, missing_msg, template_checks, PromptsConfig};
use crate::text::owned;

verus! {

/// The whole configuration.
pub struct Config {
    pub perplexity: PerplexityConfig,
    pub server: ServerConfig,
    pub prompts: PromptsConfig,
}

/// How searches are made.
pub struct PerplexityConfig {
    pub default_mode: String,
    pub default_model: String,
    pub incognito: bool,
}

/// Where and how loudly the server runs.
pub struct ServerConfig {
    pub port: u16,
    pub host: String,
    pub log_level: String,
}

/// The incognito setting when the configuration leaves it out.
pub fn default_true() -> (b: bool)
    ensures
        b,
{
    true
}

/// The log level when the configuration leaves it out.
pub fn default_log_level() -> (s: String)
    ensures
        s@ == "info"@,
{
    owned("info")
}

impl Config {
    /// Refuses a configuration whose prompt templates lack a placeholder,
    /// with the message of `PromptsConfig::validate`.
    pub fn check(&self) -> (r: Result<(), String>)
        ensures
            match first_fault(template_checks(self.prompts)) {
                Some((name, ph)) => r matches Err(m) && m@ == missing_msg(name, ph),
                None => r is Ok,
            },
    {
        self.prompts.validate()
    }
}

} // verus!
