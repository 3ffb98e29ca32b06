pub mod registry;
pub mod types;

pub use registry::{ArtifactRegistry, NodeEmit};
pub use types::{
    Artifact, ArtifactId, ArtifactKind, ArtifactMetadata, ArtifactSpec, GraphArtifactRef,
};
