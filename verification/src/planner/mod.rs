pub mod action;
pub mod builder;
pub mod capability;
pub mod execution;
pub mod traits;
pub mod utils;

pub use action::class::{ActionClass, WriteDisposition};
pub use capability::kind::{CapabilityKind, ToolCapability};
pub use execution::graph::{CompressedTool, ExecutionGraph, ExecutionNode, NodeId, NodeKind};
pub use execution::steps::{ExecutionStep, SemanticOp};
pub use traits::{HasCapability, Resolvable};
pub use action::intent::{IntentPlan, PathSource, TaskKind};
pub use builder::task::{TaskDecomposition, TaskIntent};
pub use capability::registry::CapabilityRegistry;
