//! Why a node may not run, and why a tool call failed.
use vstd::prelude::*;

use crate::planner::NodeId;
use crate::text::{decimal, push_str, u64_to_decimal};
use crate::validation::args::types::{ArgErrorView, ArgValidationError};

verus! {

/// Why a node of a plan may not run yet, or at all.
#[derive(Debug)]
pub enum ExecutionGuardError {
    DependencyNotCompleted(NodeId),
    UnknownTool(String),
    CapabilityMismatch(String),
}

/// An `ExecutionGuardError`, as values.
pub enum GuardErrorView {
    DependencyNotCompleted(NodeId),
    UnknownTool(Seq<char>),
    CapabilityMismatch(Seq<char>),
}

impl View for ExecutionGuardError {
    type V = GuardErrorView;

    open spec fn view(&self) -> GuardErrorView {
        match self {
            ExecutionGuardError::DependencyNotCompleted(d) => GuardErrorView::DependencyNotCompleted(*d),
            ExecutionGuardError::UnknownTool(n) => GuardErrorView::UnknownTool(n@),
            ExecutionGuardError::CapabilityMismatch(m) => GuardErrorView::CapabilityMismatch(m@),
        }
    }
}

impl GuardErrorView {
    /// The message that describes the error.
    pub open spec fn message(self) -> Seq<char> {
        match self {
            GuardErrorView::DependencyNotCompleted(d) => "dependency node "@ + decimal(d as nat)
                + " not yet completed"@,
            GuardErrorView::UnknownTool(n) => "tool '"@ + n + "' not found in capability registry"@,
            GuardErrorView::CapabilityMismatch(m) => "capability mismatch: "@ + m,
        }
    }
}

impl ExecutionGuardError {
    /// The message that describes the error.
    pub fn to_string(&self) -> (s: String)
        ensures
            s@ == self@.message(),
    {
        let mut s = String::new();
        match self {
            ExecutionGuardError::DependencyNotCompleted(d) => {
                push_str(&mut s, "dependency node ");
                let digits = u64_to_decimal(*d as u64);
                push_str(&mut s, digits.as_str());
                push_str(&mut s, " not yet completed");
            },
            ExecutionGuardError::UnknownTool(n) => {
                push_str(&mut s, "tool '");
                push_str(&mut s, n.as_str());
                push_str(&mut s, "' not found in capability registry");
            },
            ExecutionGuardError::CapabilityMismatch(m) => {
                push_str(&mut s, "capability mismatch: ");
                push_str(&mut s, m.as_str());
            },
        }
        s
    }
}

/// Why a tool call failed.
#[derive(Debug)]
pub enum ToolError {
    GuardFailed(ExecutionGuardError),
    ArgsBuildFailed(String),
    TransformMissingOld,
    TransformInvalid(String),
    ArgValidationFailed(String),
}

/// A `ToolError`, as values.
pub enum ToolErrorView {
    GuardFailed(GuardErrorView),
    ArgsBuildFailed(Seq<char>),
    TransformMissingOld,
    TransformInvalid(Seq<char>),
    ArgValidationFailed(Seq<char>),
}

impl View for ToolError {
    type V = ToolErrorView;

    open spec fn view(&self) -> ToolErrorView {
        match self {
            ToolError::GuardFailed(e) => ToolErrorView::GuardFailed(e@),
            ToolError::ArgsBuildFailed(m) => ToolErrorView::ArgsBuildFailed(m@),
            ToolError::TransformMissingOld => ToolErrorView::TransformMissingOld,
            ToolError::TransformInvalid(m) => ToolErrorView::TransformInvalid(m@),
            ToolError::ArgValidationFailed(m) => ToolErrorView::ArgValidationFailed(m@),
        }
    }
}

impl ToolErrorView {
    /// The message that describes the error.
    pub open spec fn message(self) -> Seq<char> {
        match self {
            ToolErrorView::GuardFailed(e) => "execution guard failed: "@ + e.message(),
            ToolErrorView::ArgsBuildFailed(m) => "failed to build args: "@ + m,
            ToolErrorView::TransformMissingOld => "edit blocked: missing target string. No changes were made."@,
            ToolErrorView::TransformInvalid(m) => "edit blocked: "@ + m + ". No changes were made."@,
            ToolErrorView::ArgValidationFailed(m) => "argument validation failed: "@ + m,
        }
    }
}

impl ToolError {
    /// The message that describes the error.
    pub fn to_string(&self) -> (s: String)
        ensures
            s@ == self@.message(),
    {
        let mut s = String::new();
        match self {
            ToolError::GuardFailed(e) => {
                push_str(&mut s, "execution guard failed: ");
                let m = e.to_string();
                push_str(&mut s, m.as_str());
            },
            ToolError::ArgsBuildFailed(m) => {
                push_str(&mut s, "failed to build args: ");
                push_str(&mut s, m.as_str());
            },
            ToolError::TransformMissingOld => {
                push_str(&mut s, "edit blocked: missing target string. No changes were made.");
            },
            ToolError::TransformInvalid(m) => {
                push_str(&mut s, "edit blocked: ");
                push_str(&mut s, m.as_str());
                push_str(&mut s, ". No changes were made.");
            },
            ToolError::ArgValidationFailed(m) => {
                push_str(&mut s, "argument validation failed: ");
                push_str(&mut s, m.as_str());
            },
        }
        s
    }
}

impl From<ExecutionGuardError> for ToolError {
    fn from(e: ExecutionGuardError) -> (r: Self) {
        ToolError::GuardFailed(e)
    }
}

impl vstd::std_specs::convert::FromSpecImpl<ExecutionGuardError> for ToolError {
    open spec fn obeys_from_spec() -> bool {
        true
    }

    open spec fn from_spec(e: ExecutionGuardError) -> ToolError {
        ToolError::GuardFailed(e)
    }
}

/// The tool error that an argument check's error becomes: its message.
pub open spec fn tool_error_of_args(e: ArgErrorView) -> ToolErrorView {
    ToolErrorView::ArgValidationFailed(e.message())
}

impl ToolError {
    /// The tool error that an argument check's error becomes.
    pub fn from_arg_error(e: ArgValidationError) -> (r: Self)
        ensures
            r@ == tool_error_of_args(e@),
    {
        ToolError::ArgValidationFailed(e.to_string())
    }
}

} // verus!
