//! The execution graph: nodes that each call one tool, the order in which
//! they run, and the nodes each one waits for.
use vstd::prelude::*;

use std::collections::HashMap;

use crate::artifact::{ArtifactSpec, GraphArtifactRef};
use crate::json::JsonValue;
use crate::text::{decimal, push_str, u64_to_decimal};

verus! {

broadcast use vstd::std_specs::hash::group_hash_axioms;

/// The identity of a node in an execution graph.
pub type NodeId = u32;

/// What a language model made of a tool's description.
pub struct CompressedTool {
    pub capabilities: Vec<String>,
    pub limits: Vec<String>,
    pub inputs: Vec<String>,
    pub outputs: Vec<String>,
}

impl Default for CompressedTool {
    fn default() -> (r: Self)
        ensures
            r.capabilities@.len() == 0,
            r.limits@.len() == 0,
            r.inputs@.len() == 0,
            r.outputs@.len() == 0,
    {
        CompressedTool {
            capabilities: Vec::new(),
            limits: Vec::new(),
            inputs: Vec::new(),
            outputs: Vec::new(),
        }
    }
}

/// Whether a node runs a tool or waits for the user.
#[derive(Clone, Copy, Debug, PartialEq, Eq, Structural)]
pub enum NodeKind {
    Execution,
    Interaction,
}

/// One tool call of a plan.
pub struct ExecutionNode {
    pub id: NodeId,
    pub kind: NodeKind,
    pub tool_name: String,
    pub required_artifact_refs: Vec<GraphArtifactRef>,
    pub produces_artifacts: Vec<ArtifactSpec>,
    pub args_hint: Option<JsonValue>,
}

/// A plan: its nodes, the order in which they run, and for each node the
/// nodes it waits for.
pub struct ExecutionGraph {
    pub nodes: HashMap<NodeId, ExecutionNode>,
    pub dependencies: HashMap<NodeId, Vec<NodeId>>,
    pub ordering: Vec<NodeId>,
}

/// The nodes that `n` waits for.
pub open spec fn deps_of(deps: Map<NodeId, Vec<NodeId>>, n: NodeId) -> Seq<NodeId> {
    if deps.contains_key(n) {
        deps[n]@
    } else {
        Seq::empty()
    }
}

/// `a` waits for `b`.
pub open spec fn has_edge(deps: Map<NodeId, Vec<NodeId>>, a: NodeId, b: NodeId) -> bool {
    deps_of(deps, a).contains(b)
}

/// `ordering references unknown node id={id}`
pub open spec fn unknown_ordering_msg(id: NodeId) -> Seq<char> {
    "ordering references unknown node id="@ + decimal(id as nat)
}

/// `node {node} depends on unknown node {dep}`
pub open spec fn unknown_dependency_msg(node: NodeId, dep: NodeId) -> Seq<char> {
    "node "@ + decimal(node as nat) + " depends on unknown node "@ + decimal(dep as nat)
}

/// `node {id} has no tool_name`
pub open spec fn no_tool_msg(id: NodeId) -> Seq<char> {
    "node "@ + decimal(id as nat) + " has no tool_name"@
}

impl ExecutionGraph {
    /// Every node in the ordering exists.
    pub open spec fn ordering_known(&self) -> bool {
        forall|i: int| 0 <= i < self.ordering@.len() ==> self.nodes@.contains_key(self.ordering@[i])
    }

    /// Every node that some node waits for exists.
    pub open spec fn dependencies_known(&self) -> bool {
        forall|n: NodeId, d: NodeId|
            self.dependencies@.contains_key(n) && #[trigger] self.dependencies@[n]@.contains(d)
                ==> self.nodes@.contains_key(d)
    }

    /// Every node in the ordering names a tool.
    pub open spec fn tools_named(&self) -> bool {
        forall|i: int|
            0 <= i < self.ordering@.len() ==> self.nodes@[self.ordering@[i]].tool_name@.len() > 0
    }

    /// Checks that the graph refers only to nodes it has and that each
    /// ordered node names a tool; the error says what is wrong.
    pub fn validate_structure(&self) -> (r: Result<(), String>)
        ensures
            r is Ok <==> self.ordering_known() && self.dependencies_known() && self.tools_named(),
            r matches Err(msg) ==> {
                ||| exists|i: int|
                    0 <= i < self.ordering@.len() && !self.nodes@.contains_key(self.ordering@[i])
                        && (forall|j: int|
                        0 <= j < i ==> self.nodes@.contains_key(self.ordering@[j])) && msg@
                        == unknown_ordering_msg(self.ordering@[i])
                ||| self.ordering_known() && exists|n: NodeId, d: NodeId|
                    self.dependencies@.contains_key(n) && self.dependencies@[n]@.contains(d)
                        && !self.nodes@.contains_key(d) && msg@ == unknown_dependency_msg(n, d)
                ||| self.ordering_known() && self.dependencies_known() && exists|i: int|
                    0 <= i < self.ordering@.len() && self.nodes@[self.ordering@[i]].tool_name@.len()
                        == 0 && (forall|j: int|
                        0 <= j < i ==> self.nodes@[self.ordering@[j]].tool_name@.len() > 0) && msg@
                        == no_tool_msg(self.ordering@[i])
            },
    {
        let mut i: usize = 0;
        while i < self.ordering.len()
            invariant
                i <= self.ordering@.len(),
                forall|j: int| 0 <= j < i ==> self.nodes@.contains_key(self.ordering@[j]),
            decreases self.ordering@.len() - i,
        {
            let id = self.ordering[i];
            if !self.nodes.contains_key(&id) {
                let mut msg = String::new();
                push_str(&mut msg, "ordering references unknown node id=");
                let digits = u64_to_decimal(id as u64);
                push_str(&mut msg, digits.as_str());
                return Err(msg);
            }
            i = i + 1;
        }
        #[verifier::loop_isolation(true)]
        for pair in it: self.dependencies.iter()
            invariant
                self.ordering_known(),
                forall|t: int, d: NodeId|
                    0 <= t < it.index() && #[trigger] it.seq()[t].1@.contains(d)
                        ==> self.nodes@.contains_key(d),
                forall|t: int|
                    0 <= t < it.seq().len() ==> self.dependencies@.contains_key(*it.seq()[t].0)
                        && self.dependencies@[*it.seq()[t].0] == *it.seq()[t].1,
                forall|n: NodeId| #[trigger]
                    self.dependencies@.contains_key(n) ==> it.seq().contains(
                        (&n, &self.dependencies@[n]),
                    ),
            ensures
                self.dependencies_known(),
        {
            let (node_id, deps) = pair;
            let mut k: usize = 0;
            while k < deps.len()
                invariant
                    k <= deps@.len(),
                    forall|j: int| 0 <= j < k ==> self.nodes@.contains_key(deps@[j]),
                    self.dependencies@.contains_key(*node_id),
                    self.dependencies@[*node_id] == *deps,
                decreases deps@.len() - k,
            {
                let dep = deps[k];
                if !self.nodes.contains_key(&dep) {
                    let mut msg = String::new();
                    push_str(&mut msg, "node ");
                    let a = u64_to_decimal(*node_id as u64);
                    push_str(&mut msg, a.as_str());
                    push_str(&mut msg, " depends on unknown node ");
                    let b = u64_to_decimal(dep as u64);
                    push_str(&mut msg, b.as_str());
                    proof {
                        assert(self.dependencies@[*node_id]@.contains(dep));
                        assert(msg@ =~= unknown_dependency_msg(*node_id, dep));
                        assert(!self.nodes@.contains_key(dep));
                    }
                    return Err(msg);
                }
                k = k + 1;
            }
            proof {
                assert forall|d: NodeId| #[trigger] deps@.contains(d) implies self.nodes@.contains_key(
                    d,
                ) by {
                    let j = choose|j: int| 0 <= j < deps@.len() && deps@[j] == d;
                }
            }
        }
        let mut i: usize = 0;
        while i < self.ordering.len()
            invariant
                self.ordering_known(),
                self.dependencies_known(),
                i <= self.ordering@.len(),
                forall|j: int|
                    0 <= j < i ==> self.nodes@[self.ordering@[j]].tool_name@.len() > 0,
            decreases self.ordering@.len() - i,
        {
            let id = self.ordering[i];
            let node = self.nodes.get(&id).unwrap();
            if node.tool_name.as_str().is_empty() {
                let mut msg = String::new();
                push_str(&mut msg, "node ");
                let digits = u64_to_decimal(id as u64);
                push_str(&mut msg, digits.as_str());
                push_str(&mut msg, " has no tool_name");
                return Err(msg);
            }
            i = i + 1;
        }
        Ok(())
    }
}

} // verus!
