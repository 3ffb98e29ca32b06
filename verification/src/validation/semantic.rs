//! Whether a checked intent can be carried out: some registered tool has
//! the capability it needs, and a file to write has a parent directory.
use vstd::prelude::*;

use crate::planner::action::class::ActionClass;
use crate::planner::capability::kind::CapabilityKind;
use crate::planner::capability::registry::CapabilityRegistry;
use crate::planner::traits::HasCapability;
use crate::text::owned;
use crate::validation::intent::ValidatedIntent;
use crate::validation::utils::FsSnapshot;
use crate::validation::Validate;

verus! {

/// What an intent is checked against: the registered tools and what exists
/// on disk.
pub struct SemanticContext<'a> {
    pub registry: &'a CapabilityRegistry,
    pub fs: &'a FsSnapshot,
}

/// Why a checked intent cannot be carried out.
#[derive(Clone, Copy, Debug, PartialEq, Eq, Structural)]
pub enum SemanticValidationError {
    NoCompatibleCapability,
    ParentDirectoryMissing,
}

impl SemanticValidationError {
    /// The message that describes the error.
    pub open spec fn message(self) -> Seq<char> {
        match self {
            SemanticValidationError::NoCompatibleCapability => "no compatible capability registered for action"@,
            SemanticValidationError::ParentDirectoryMissing => "parent directory does not exist"@,
        }
    }

    /// The message that describes the error.
    pub fn to_string(&self) -> (s: String)
        ensures
            s@ == self.message(),
    {
        match self {
            SemanticValidationError::NoCompatibleCapability => owned(
                "no compatible capability registered for action",
            ),
            SemanticValidationError::ParentDirectoryMissing => owned("parent directory does not exist"),
        }
    }
}

/// The directory that holds `p`, as `Path::parent` gives it.
pub uninterp spec fn path_parent_of(p: Seq<char>) -> Option<Seq<char>>;

/// `Path::parent`: the path without its last component; none for a root
/// or an empty path. Its contract names the result and says no more.
#[verifier::external_body]
fn path_parent(p: &str) -> (r: Option<String>)
    ensures
        crate::artifact::types::opt_string_view(r) == path_parent_of(p@),
{
    std::path::Path::new(p).parent().map(|q| q.to_string_lossy().into_owned())
}

/// Some registered tool has capability `kind`.
pub open spec fn has_tools_of(registry: CapabilityRegistry, kind: CapabilityKind) -> bool {
    registry.kind_names(kind) matches Some(names) && names.len() > 0
}

/// The verdict on a parent directory: missing from `fs` is an error.
pub open spec fn parent_verdict_spec(parent: Option<Seq<char>>, fs: Map<Seq<char>, bool>) -> Result<
    (),
    SemanticValidationError,
> {
    match parent {
        Some(d) => if fs.contains_key(d) {
            Ok(())
        } else {
            Err(SemanticValidationError::ParentDirectoryMissing)
        },
        None => Ok(()),
    }
}

/// Whether the directory `parent` of a file to write exists in `fs`.
pub fn parent_verdict(parent: Option<&str>, fs: &FsSnapshot) -> (r: Result<(), SemanticValidationError>)
    requires
        fs.wf(),
    ensures
        r == parent_verdict_spec(crate::planner::builder::task::opt_str(parent), fs@),
{
    match parent {
        Some(d) => match fs.lookup(d) {
            Some(_) => Ok(()),
            None => Err(SemanticValidationError::ParentDirectoryMissing),
        },
        None => Ok(()),
    }
}

impl<'ctx> Validate<'ctx> for ValidatedIntent {
    type Context = SemanticContext<'ctx>;

    type Error = SemanticValidationError;

    open spec fn validate_requires(&self, ctx: &SemanticContext<'ctx>) -> bool {
        ctx.registry.wf() && ctx.fs.wf()
    }

    /// Refused when no registered tool has the capability the action needs;
    /// for a write, when the parent directory of the subject is not on disk.
    fn validate(&self, ctx: &'ctx SemanticContext<'ctx>) -> (r: Result<(), SemanticValidationError>)
        ensures
            !has_tools_of(*ctx.registry, self.original.action.capability_spec()) ==> r == Err::<
                (),
                SemanticValidationError,
            >(SemanticValidationError::NoCompatibleCapability),
            has_tools_of(*ctx.registry, self.original.action.capability_spec()) ==> (
            if self.original.action == ActionClass::WriteFile && self.canonical_subject is Some {
                r == parent_verdict_spec(path_parent_of(self.canonical_subject->0@), ctx.fs@)
            } else {
                r is Ok
            }),
    {
        let kind = self.original.action.capability();
        let mut pos: usize = 0;
        while pos < ctx.registry.by_kind.len() && ctx.registry.by_kind[pos].0 != kind
            invariant
                pos <= ctx.registry.by_kind@.len(),
                forall|a: int| 0 <= a < pos ==> ctx.registry.by_kind@[a].0 != kind,
            decreases ctx.registry.by_kind@.len() - pos,
        {
            pos = pos + 1;
        }
        if pos == ctx.registry.by_kind.len() || ctx.registry.by_kind[pos].1.len() == 0 {
            return Err(SemanticValidationError::NoCompatibleCapability);
        }
        proof {
            assert(ctx.registry.kind_names(kind) == Some(
                crate::planner::execution::steps::strings_view(ctx.registry.by_kind@[pos as int].1),
            ));
        }
        if self.original.action == ActionClass::WriteFile {
            match &self.canonical_subject {
                Some(canonical) => {
                    let parent = path_parent(canonical.as_str());
                    match parent {
                        Some(d) => {
                            return parent_verdict(Some(d.as_str()), ctx.fs);
                        },
                        None => {
                            return parent_verdict(None, ctx.fs);
                        },
                    }
                },
                None => {},
            }
        }
        Ok(())
    }
}

} // verus!
