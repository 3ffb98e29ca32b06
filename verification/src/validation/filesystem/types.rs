//! What a step needs of the path it acts on.
use vstd::prelude::*;

use crate::text::owned;

verus! {

/// What a step needs of its target path.
#[derive(Clone, Copy, Debug, PartialEq, Eq, Structural)]
pub enum FsRequirement {
    BeFile,
    NotBeDir,
    BeDir,
}

/// Why a target path does not fit a step.
#[derive(Clone, Copy, Debug, PartialEq, Eq, Structural)]
pub enum ResolveError {
    TargetNotFound,
    TargetIsDirectory,
}

impl ResolveError {
    /// The message that describes the error.
    pub open spec fn message(self) -> Seq<char> {
        match self {
            ResolveError::TargetNotFound => "target not found"@,
            ResolveError::TargetIsDirectory => "target is a directory"@,
        }
    }

    /// The message that describes the error.
    pub fn to_string(&self) -> (s: String)
        ensures
            s@ == self.message(),
    {
        match self {
            ResolveError::TargetNotFound => owned("target not found"),
            ResolveError::TargetIsDirectory => owned("target is a directory"),
        }
    }
}

} // verus!
