#![verifier::loop_isolation(false)]

use vstd::prelude::*;

pub mod text;
pub mod json;
pub mod perplexity;
pub mod strmap;
pub mod anthropic;
pub mod artifact;
pub mod config;
pub mod bridge;
pub mod planner;
pub mod prompts;
pub mod server;
pub mod state;
pub mod validation;
