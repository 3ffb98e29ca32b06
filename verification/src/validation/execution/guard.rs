//! Whether one node of a plan may run now: the nodes it waits for have
//! run, its tool is registered, and the tool can produce what the node
//! promises.
use vstd::prelude::*;

use std::collections::HashSet;

use super::error::{ExecutionGuardError, GuardErrorView};
use crate::artifact::ArtifactSpec;
use crate::planner::capability::kind::{CapabilityKind, ToolCapability};
use crate::planner::capability::registry::CapabilityRegistry;
use crate::planner::execution::graph::deps_of;
use crate::planner::{ExecutionGraph, ExecutionNode, NodeId};
use crate::text::push_str;
use crate::validation::Validate;

verus! {

broadcast use vstd::std_specs::hash::group_hash_axioms;

/// What a node is checked against: its graph, the nodes that have run, and
/// the registered tools.
pub struct GuardContext<'a> {
    pub graph: &'a ExecutionGraph,
    pub completed: &'a HashSet<NodeId>,
    pub registry: &'a CapabilityRegistry,
}

/// The first of `ds` that has not run.
pub open spec fn first_pending(ds: Seq<NodeId>, completed: Set<NodeId>) -> Option<NodeId>
    decreases ds.len(),
{
    if ds.len() == 0 {
        None
    } else if !completed.contains(ds[0]) {
        Some(ds[0])
    } else {
        first_pending(ds.drop_first(), completed)
    }
}

/// The first of `specs` that a tool of capability `kind` cannot produce.
pub open spec fn first_mismatch(specs: Seq<ArtifactSpec>, kind: CapabilityKind) -> Option<ArtifactSpec>
    decreases specs.len(),
{
    if specs.len() == 0 {
        None
    } else if !kind.can_produce(specs[0].kind) {
        Some(specs[0])
    } else {
        first_mismatch(specs.drop_first(), kind)
    }
}

/// `tool '{tool}' cannot produce artifact ref '{ref}'`
pub open spec fn mismatch_msg(tool: Seq<char>, r: Seq<char>) -> Seq<char> {
    "tool '"@ + tool + "' cannot produce artifact ref '"@ + r + "'"@
}

/// The verdict on node `n`: the first dependency that has not run; else a
/// tool that is not registered; else the first promised artifact that the
/// tool's capability cannot produce.
pub open spec fn guard_verdict(
    n: ExecutionNode,
    deps: Map<NodeId, Vec<NodeId>>,
    completed: Set<NodeId>,
    by_name: Map<Seq<char>, ToolCapability>,
) -> Option<GuardErrorView> {
    match first_pending(deps_of(deps, n.id), completed) {
        Some(d) => Some(GuardErrorView::DependencyNotCompleted(d)),
        None => if !by_name.contains_key(n.tool_name@) {
            Some(GuardErrorView::UnknownTool(n.tool_name@))
        } else {
            match first_mismatch(n.produces_artifacts@, by_name[n.tool_name@].kind) {
                Some(s) => Some(
                    GuardErrorView::CapabilityMismatch(mismatch_msg(n.tool_name@, s.ref_name@)),
                ),
                None => None,
            }
        },
    }
}

proof fn lemma_first_pending_skip(ds: Seq<NodeId>, completed: Set<NodeId>, i: int)
    requires
        0 <= i <= ds.len(),
        forall|k: int| 0 <= k < i ==> completed.contains(#[trigger] ds[k]),
    ensures
        first_pending(ds, completed) == first_pending(ds.skip(i), completed),
    decreases i,
{
    if i > 0 {
        assert forall|k: int| 0 <= k < i - 1 implies completed.contains(#[trigger] ds.drop_first()[k]) by {
            assert(ds.drop_first()[k] == ds[k + 1]);
        }
        lemma_first_pending_skip(ds.drop_first(), completed, i - 1);
        assert(ds.drop_first().skip(i - 1) =~= ds.skip(i));
    } else {
        assert(ds.skip(0) =~= ds);
    }
}

proof fn lemma_first_mismatch_skip(specs: Seq<ArtifactSpec>, kind: CapabilityKind, i: int)
    requires
        0 <= i <= specs.len(),
        forall|k: int| 0 <= k < i ==> kind.can_produce(#[trigger] specs[k].kind),
    ensures
        first_mismatch(specs, kind) == first_mismatch(specs.skip(i), kind),
    decreases i,
{
    if i > 0 {
        assert forall|k: int| 0 <= k < i - 1 implies kind.can_produce(#[trigger] specs.drop_first()[k].kind) by {
            assert(specs.drop_first()[k] == specs[k + 1]);
        }
        lemma_first_mismatch_skip(specs.drop_first(), kind, i - 1);
        assert(specs.drop_first().skip(i - 1) =~= specs.skip(i));
    } else {
        assert(specs.skip(0) =~= specs);
    }
}

impl<'ctx> Validate<'ctx> for ExecutionNode {
    type Context = GuardContext<'ctx>;

    type Error = ExecutionGuardError;

    open spec fn validate_requires(&self, ctx: &GuardContext<'ctx>) -> bool {
        ctx.registry.wf()
    }

    /// The node may run when every node it waits for has run, its tool is
    /// registered, and the tool's capability can produce each artifact the
    /// node promises.
    fn validate(&self, ctx: &'ctx GuardContext<'ctx>) -> (r: Result<(), ExecutionGuardError>)
        ensures
            match guard_verdict(*self, ctx.graph.dependencies@, ctx.completed@, ctx.registry.by_name@) {
                Some(v) => r matches Err(e) && e@ == v,
                None => r is Ok,
            },
    {
        let ghost ds = deps_of(ctx.graph.dependencies@, self.id);
        match ctx.graph.dependencies.get(&self.id) {
            Some(deps) => {
                let mut i: usize = 0;
                while i < deps.len()
                    invariant
                        ds == deps@,
                        i <= deps@.len(),
                        forall|k: int| 0 <= k < i ==> ctx.completed@.contains(#[trigger] deps@[k]),
                    decreases deps@.len() - i,
                {
                    let dep_id = deps[i];
                    if !ctx.completed.contains(&dep_id) {
                        proof {
                            lemma_first_pending_skip(ds, ctx.completed@, i as int);
                        }
                        return Err(ExecutionGuardError::DependencyNotCompleted(dep_id));
                    }
                    i = i + 1;
                }
                proof {
                    lemma_first_pending_skip(ds, ctx.completed@, i as int);
                }
            },
            None => {},
        }
        let capability = match ctx.registry.by_name.get(self.tool_name.as_str()) {
            Some(c) => c,
            None => {
                return Err(
                    ExecutionGuardError::UnknownTool(crate::text::owned(self.tool_name.as_str())),
                );
            },
        };
        let mut j: usize = 0;
        while j < self.produces_artifacts.len()
            invariant
                j <= self.produces_artifacts@.len(),
                forall|k: int|
                    0 <= k < j ==> capability.kind.can_produce(#[trigger] self.produces_artifacts@[k].kind),
            decreases self.produces_artifacts@.len() - j,
        {
            let spec = &self.produces_artifacts[j];
            if !capability.kind.matches(&spec.kind) {
                proof {
                    lemma_first_mismatch_skip(self.produces_artifacts@, capability.kind, j as int);
                }
                let mut msg = String::new();
                push_str(&mut msg, "tool '");
                push_str(&mut msg, self.tool_name.as_str());
                push_str(&mut msg, "' cannot produce artifact ref '");
                push_str(&mut msg, spec.ref_name.as_str());
                push_str(&mut msg, "'");
                return Err(ExecutionGuardError::CapabilityMismatch(msg));
            }
            j = j + 1;
        }
        proof {
            lemma_first_mismatch_skip(self.produces_artifacts@, capability.kind, j as int);
        }
        Ok(())
    }
}

} // verus!
