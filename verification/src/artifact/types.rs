//! What an execution node produces, and under which names it is found again.
use vstd::prelude::*;

use crate::planner::NodeId;
use crate::text::str_eq;

verus! {

/// `std::time::SystemTime`, carried through as an opaque value.
#[verifier::external_type_specification]
#[verifier::external_body]
pub struct ExSystemTime(std::time::SystemTime);

/// The kind of content an artifact holds.
#[derive(Clone, Copy, Debug, PartialEq, Eq, Structural)]
pub enum ArtifactKind {
    FileSnapshot,
    ExecutionOutput,
    SearchResultSet,
    FetchedContent,
    UserResponse,
    DirectoryListing,
    DiagnosticSet,
    PatchPlan,
}

impl ArtifactKind {
    /// The name under which a kind is written.
    pub open spec fn ref_name_spec(self) -> Seq<char> {
        match self {
            ArtifactKind::FileSnapshot => "file_content"@,
            ArtifactKind::ExecutionOutput => "command_output"@,
            ArtifactKind::SearchResultSet => "search_results"@,
            ArtifactKind::FetchedContent => "fetched_content"@,
            ArtifactKind::UserResponse => "user_response"@,
            ArtifactKind::DirectoryListing => "directory_listing"@,
            ArtifactKind::DiagnosticSet => "diagnostic_set"@,
            ArtifactKind::PatchPlan => "patch_plan"@,
        }
    }

    /// The name under which a kind is written.
    pub fn as_ref_name(&self) -> (r: &'static str)
        ensures
            r@ == self.ref_name_spec(),
    {
        match self {
            ArtifactKind::FileSnapshot => "file_content",
            ArtifactKind::ExecutionOutput => "command_output",
            ArtifactKind::SearchResultSet => "search_results",
            ArtifactKind::FetchedContent => "fetched_content",
            ArtifactKind::UserResponse => "user_response",
            ArtifactKind::DirectoryListing => "directory_listing",
            ArtifactKind::DiagnosticSet => "diagnostic_set",
            ArtifactKind::PatchPlan => "patch_plan",
        }
    }

    /// The kind written as `s`, if any (the parse that `str::parse` performs).
    pub fn from_ref_name(s: &str) -> (r: Option<ArtifactKind>)
        ensures
            r == ref_kind(s@),
            match r {
                Some(k) => k.ref_name_spec() == s@,
                None => forall|k: ArtifactKind| k.ref_name_spec() != s@,
            },
    {
        if str_eq(s, "file_content") {
            Some(ArtifactKind::FileSnapshot)
        } else if str_eq(s, "command_output") {
            Some(ArtifactKind::ExecutionOutput)
        } else if str_eq(s, "search_results") {
            Some(ArtifactKind::SearchResultSet)
        } else if str_eq(s, "fetched_content") {
            Some(ArtifactKind::FetchedContent)
        } else if str_eq(s, "user_response") {
            Some(ArtifactKind::UserResponse)
        } else if str_eq(s, "directory_listing") {
            Some(ArtifactKind::DirectoryListing)
        } else if str_eq(s, "diagnostic_set") {
            Some(ArtifactKind::DiagnosticSet)
        } else if str_eq(s, "patch_plan") {
            Some(ArtifactKind::PatchPlan)
        } else {
            None
        }
    }

    /// The kind written as `s`, or `ExecutionOutput` when `s` names none
    /// (`s.parse().unwrap_or(ArtifactKind::ExecutionOutput)`).
    pub fn parse_or_output(s: &str) -> (r: ArtifactKind)
        ensures
            r == kind_named(s@),
    {
        match ArtifactKind::from_ref_name(s) {
            Some(k) => k,
            None => ArtifactKind::ExecutionOutput,
        }
    }
}

/// The kind written as `s`, if any.
pub open spec fn ref_kind(s: Seq<char>) -> Option<ArtifactKind> {
    if s == "file_content"@ {
        Some(ArtifactKind::FileSnapshot)
    } else if s == "command_output"@ {
        Some(ArtifactKind::ExecutionOutput)
    } else if s == "search_results"@ {
        Some(ArtifactKind::SearchResultSet)
    } else if s == "fetched_content"@ {
        Some(ArtifactKind::FetchedContent)
    } else if s == "user_response"@ {
        Some(ArtifactKind::UserResponse)
    } else if s == "directory_listing"@ {
        Some(ArtifactKind::DirectoryListing)
    } else if s == "diagnostic_set"@ {
        Some(ArtifactKind::DiagnosticSet)
    } else if s == "patch_plan"@ {
        Some(ArtifactKind::PatchPlan)
    } else {
        None
    }
}

/// A kind's name reads back as that kind, so no two kinds share a name.
pub proof fn lemma_ref_name_round_trip(k: ArtifactKind, k2: ArtifactKind)
    ensures
        ref_kind(k.ref_name_spec()) == Some(k),
        kind_named(k.ref_name_spec()) == k,
        k.ref_name_spec() == k2.ref_name_spec() ==> k == k2,
{
    reveal_strlit("file_content");
    reveal_strlit("command_output");
    reveal_strlit("search_results");
    reveal_strlit("fetched_content");
    reveal_strlit("user_response");
    reveal_strlit("directory_listing");
    reveal_strlit("diagnostic_set");
    reveal_strlit("patch_plan");
    assert("file_content"@.len() == 12 && "file_content"@[0] == 'f');
    assert("command_output"@.len() == 14 && "command_output"@[0] == 'c');
    assert("search_results"@.len() == 14 && "search_results"@[0] == 's');
    assert("fetched_content"@.len() == 15 && "fetched_content"@[0] == 'f');
    assert("user_response"@.len() == 13 && "user_response"@[0] == 'u');
    assert("directory_listing"@.len() == 17 && "directory_listing"@[0] == 'd');
    assert("diagnostic_set"@.len() == 14 && "diagnostic_set"@[0] == 'd');
    assert("patch_plan"@.len() == 10 && "patch_plan"@[0] == 'p');
}

/// The kind written as `s`, or `ExecutionOutput` when `s` names none.
pub open spec fn kind_named(s: Seq<char>) -> ArtifactKind {
    match ref_kind(s) {
        Some(k) => k,
        None => ArtifactKind::ExecutionOutput,
    }
}

/// A name in an execution graph under which an artifact is produced and
/// consumed.
pub type GraphArtifactRef = String;

/// The identity of one artifact version.
pub type ArtifactId = String;

/// An artifact that a node promises to produce.
pub struct ArtifactSpec {
    pub ref_name: GraphArtifactRef,
    pub kind: ArtifactKind,
}

/// Where an artifact came from.
pub struct ArtifactMetadata {
    pub produced_by_node: NodeId,
    pub produced_by_tool: String,
    pub timestamp: std::time::SystemTime,
    pub workflow_id: String,
    pub file_path: Option<String>,
}

/// One version of a produced artifact.
pub struct Artifact {
    pub id: ArtifactId,
    pub kind: ArtifactKind,
    pub name: String,
    pub content: String,
    pub metadata: ArtifactMetadata,
}

/// The metadata of an artifact, as values.
pub struct MetadataView {
    pub produced_by_node: NodeId,
    pub produced_by_tool: Seq<char>,
    pub timestamp: std::time::SystemTime,
    pub workflow_id: Seq<char>,
    pub file_path: Option<Seq<char>>,
}

/// An artifact, as values.
pub struct ArtifactView {
    pub id: Seq<char>,
    pub kind: ArtifactKind,
    pub name: Seq<char>,
    pub content: Seq<char>,
    pub metadata: MetadataView,
}

pub open spec fn opt_string_view(o: Option<String>) -> Option<Seq<char>> {
    match o {
        Some(s) => Some(s@),
        None => None,
    }
}

impl View for ArtifactMetadata {
    type V = MetadataView;

    open spec fn view(&self) -> MetadataView {
        MetadataView {
            produced_by_node: self.produced_by_node,
            produced_by_tool: self.produced_by_tool@,
            timestamp: self.timestamp,
            workflow_id: self.workflow_id@,
            file_path: opt_string_view(self.file_path),
        }
    }
}

impl View for Artifact {
    type V = ArtifactView;

    open spec fn view(&self) -> ArtifactView {
        ArtifactView {
            id: self.id@,
            kind: self.kind,
            name: self.name@,
            content: self.content@,
            metadata: self.metadata@,
        }
    }
}

} // verus!
