//! Why a plan or a step of it is refused.
use vstd::prelude::*;

use crate::planner::ActionClass;
use crate::text::push_str;

verus! {

/// Why an execution graph is refused as a whole.
#[derive(Debug)]
pub enum ExecutionContractError {
    EmptyGraph,
    NoToolForAction(ActionClass),
    MissingArtifactProducer(String),
    ArtifactProducerAfterConsumer(String),
    CyclicDependency,
}

/// An `ExecutionContractError` as values.
pub enum ContractErrorView {
    EmptyGraph,
    NoToolForAction(ActionClass),
    MissingArtifactProducer(Seq<char>),
    ArtifactProducerAfterConsumer(Seq<char>),
    CyclicDependency,
}

impl View for ExecutionContractError {
    type V = ContractErrorView;

    open spec fn view(&self) -> ContractErrorView {
        match self {
            ExecutionContractError::EmptyGraph => ContractErrorView::EmptyGraph,
            ExecutionContractError::NoToolForAction(a) => ContractErrorView::NoToolForAction(*a),
            ExecutionContractError::MissingArtifactProducer(r) => {
                ContractErrorView::MissingArtifactProducer(r@)
            },
            ExecutionContractError::ArtifactProducerAfterConsumer(r) => {
                ContractErrorView::ArtifactProducerAfterConsumer(r@)
            },
            ExecutionContractError::CyclicDependency => ContractErrorView::CyclicDependency,
        }
    }
}

impl ContractErrorView {
    /// The message that describes the error.
    pub open spec fn message(self) -> Seq<char> {
        match self {
            ContractErrorView::EmptyGraph => "graph has no executable nodes"@,
            ContractErrorView::NoToolForAction(a) => "no active tool can satisfy action "@
                + a.name_spec(),
            ContractErrorView::MissingArtifactProducer(r) => "no producer for artifact ref: "@ + r,
            ContractErrorView::ArtifactProducerAfterConsumer(r) => {
                "producer after consumer for artifact ref: "@ + r
            },
            ContractErrorView::CyclicDependency => "cyclic dependency detected in graph"@,
        }
    }
}

impl ExecutionContractError {
    /// The message that describes the error.
    pub fn to_string(&self) -> (s: String)
        ensures
            s@ == self@.message(),
    {
        let mut s = String::new();
        match self {
            ExecutionContractError::EmptyGraph => push_str(&mut s, "graph has no executable nodes"),
            ExecutionContractError::NoToolForAction(a) => {
                push_str(&mut s, "no active tool can satisfy action ");
                push_str(&mut s, a.name());
            },
            ExecutionContractError::MissingArtifactProducer(r) => {
                push_str(&mut s, "no producer for artifact ref: ");
                push_str(&mut s, r.as_str());
            },
            ExecutionContractError::ArtifactProducerAfterConsumer(r) => {
                push_str(&mut s, "producer after consumer for artifact ref: ");
                push_str(&mut s, r.as_str());
            },
            ExecutionContractError::CyclicDependency => {
                push_str(&mut s, "cyclic dependency detected in graph")
            },
        }
        s
    }
}

} // verus!
