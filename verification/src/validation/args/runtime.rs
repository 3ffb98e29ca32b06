//! What went wrong when a tool ran, read from its error text.
use vstd::prelude::*;

use crate::text::{contains, contains_seq};

verus! {

/// A failure of a tool run, by kind.
#[derive(Clone, Copy, Debug, PartialEq, Eq, Structural)]
pub enum RuntimeError {
    Timeout,
    Malformed,
    Interrupted,
    InvalidPath,
}

/// The kind of failure that an error text reports, checked in this order.
pub open spec fn runtime_error_of(e: Seq<char>) -> Option<RuntimeError> {
    if contains_seq(e, "timeout"@) {
        Some(RuntimeError::Timeout)
    } else if contains_seq(e, "malformed"@) {
        Some(RuntimeError::Malformed)
    } else if contains_seq(e, "interrupted"@) {
        Some(RuntimeError::Interrupted)
    } else if contains_seq(e, "invalid path"@) || contains_seq(e, "canonical"@) {
        Some(RuntimeError::InvalidPath)
    } else {
        None
    }
}

impl RuntimeError {
    /// The kind of failure that the error text `error` reports, if any.
    pub fn from_str(error: &str) -> (r: Option<Self>)
        ensures
            r == runtime_error_of(error@),
    {
        if contains(error, "timeout") {
            return Some(RuntimeError::Timeout);
        }
        if contains(error, "malformed") {
            return Some(RuntimeError::Malformed);
        }
        if contains(error, "interrupted") {
            return Some(RuntimeError::Interrupted);
        }
        if contains(error, "invalid path") || contains(error, "canonical") {
            return Some(RuntimeError::InvalidPath);
        }
        None
    }
}

} // verus!
