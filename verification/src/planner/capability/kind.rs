//! What a tool can do, and which tools can do what.
use vstd::prelude::*;

use crate::artifact::ArtifactKind;

verus! {

/// What a tool can do.
#[derive(Clone, Copy, Debug, PartialEq, Eq, Structural, Hash)]
pub enum CapabilityKind {
    Read,
    Write,
    Edit,
    Execute,
    Search,
    Interact,
}

impl CapabilityKind {
    /// A tool of this capability can produce an artifact of kind `artifact`.
    pub open spec fn can_produce(self, artifact: ArtifactKind) -> bool {
        match self {
            CapabilityKind::Read | CapabilityKind::Write | CapabilityKind::Edit => artifact
                == ArtifactKind::FileSnapshot,
            CapabilityKind::Execute => artifact == ArtifactKind::ExecutionOutput,
            CapabilityKind::Search => artifact == ArtifactKind::SearchResultSet || artifact
                == ArtifactKind::FetchedContent,
            CapabilityKind::Interact => artifact == ArtifactKind::UserResponse,
        }
    }

    /// Whether a tool of this capability can produce an artifact of kind
    /// `artifact`.
    pub fn matches(&self, artifact: &ArtifactKind) -> (b: bool)
        ensures
            b == self.can_produce(*artifact),
    {
        match self {
            CapabilityKind::Read | CapabilityKind::Write | CapabilityKind::Edit => {
                matches!(artifact, ArtifactKind::FileSnapshot)
            },
            CapabilityKind::Execute => matches!(artifact, ArtifactKind::ExecutionOutput),
            CapabilityKind::Search => matches!(
                artifact,
                ArtifactKind::SearchResultSet | ArtifactKind::FetchedContent
            ),
            CapabilityKind::Interact => matches!(artifact, ArtifactKind::UserResponse),
        }
    }
}

/// What a tool can do, which artifacts it produces and which it needs.
#[derive(Clone, Copy)]
pub struct ToolCapability {
    pub kind: CapabilityKind,
    pub produces: &'static [&'static str],
    pub requires: &'static [&'static str],
}

} // verus!
