//! Whether a target path fits what a step needs of it.
use vstd::prelude::*;

use super::types::{FsRequirement, ResolveError};
use crate::validation::utils::FileSystemState;
use crate::validation::Validate;

verus! {

/// The verdict on a path with the given existence and kind.
pub open spec fn fs_verdict(exists: bool, is_dir: bool, req: FsRequirement) -> Result<(), ResolveError> {
    match req {
        FsRequirement::BeFile => if !exists {
            Err(ResolveError::TargetNotFound)
        } else if is_dir {
            Err(ResolveError::TargetIsDirectory)
        } else {
            Ok(())
        },
        FsRequirement::NotBeDir => if exists && is_dir {
            Err(ResolveError::TargetIsDirectory)
        } else {
            Ok(())
        },
        FsRequirement::BeDir => if exists && !is_dir {
            Err(ResolveError::TargetNotFound)
        } else {
            Ok(())
        },
    }
}

impl<'ctx> Validate<'ctx> for FileSystemState {
    type Context = FsRequirement;

    type Error = ResolveError;

    open spec fn validate_requires(&self, ctx: &FsRequirement) -> bool {
        true
    }

    /// A file must exist and not be a directory; a target that must not be
    /// a directory may be missing; a directory may be missing but must not
    /// be a file.
    fn validate(&self, ctx: &'ctx FsRequirement) -> (r: Result<(), ResolveError>)
        ensures
            r == fs_verdict(self.exists, self.is_dir, *ctx),
    {
        match ctx {
            FsRequirement::BeFile => {
                if !self.exists {
                    return Err(ResolveError::TargetNotFound);
                }
                if self.is_dir {
                    return Err(ResolveError::TargetIsDirectory);
                }
                Ok(())
            },
            FsRequirement::NotBeDir => {
                if self.exists && self.is_dir {
                    return Err(ResolveError::TargetIsDirectory);
                }
                Ok(())
            },
            FsRequirement::BeDir => {
                if self.exists && !self.is_dir {
                    return Err(ResolveError::TargetNotFound);
                }
                Ok(())
            },
        }
    }
}

} // verus!
