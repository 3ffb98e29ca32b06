//! Building the execution graph of a decomposed request: one node per
//! step, numbered from 1 in the order in which they run; each step waits
//! for the one before it in its task, and the first step of a task for the
//! last steps of the tasks it depends on. A step that needs the user ends
//! the graph.
use vstd::prelude::*;

use std::collections::HashMap;

use super::task::{lemma_offered_plan_len, opt_str, TaskDecomposition, TaskIntent};
use crate::planner::execution::graph::has_edge;
use crate::validation::execution::contracts::{acyclic_from, ranked_closed};
use crate::artifact::ArtifactSpec;
use crate::bridge::tools::{all_tool_kinds, normalize_spec, tool_table, ToolEntry};
use crate::json::JsonValue;
use crate::planner::capability::classifier::first_kind_named;
use crate::planner::capability::kind::CapabilityKind;
use crate::planner::capability::registry::CapabilityRegistry;
use crate::planner::execution::graph::{ExecutionGraph, ExecutionNode, NodeId, NodeKind};
use crate::planner::execution::steps::{hint_is, step_planned, steps_planned, strings_view, ExecutionStep, PlannedStep};
use crate::validation::execution::types::{ContractErrorView, ExecutionContractError};
use crate::validation::utils::FsSnapshot;

verus! {

broadcast use vstd::std_specs::hash::group_hash_axioms;

/// The kind of node that calls the tool named `name`: an interaction when
/// the table's tool of that name needs the user.
pub open spec fn node_kind_for(name: Seq<char>) -> NodeKind {
    match first_kind_named(all_tool_kinds(), normalize_spec(name)) {
        Some(k) => if tool_table(k).capability == Some(CapabilityKind::Interact) {
            NodeKind::Interaction
        } else {
            NodeKind::Execution
        },
        None => NodeKind::Execution,
    }
}

/// Step `j` of `plan` needs the user.
pub open spec fn interactive_at(plan: Seq<PlannedStep>, j: int) -> bool {
    node_kind_for(plan[j].name) == NodeKind::Interaction
}

/// Step `j` is the first step of `plan` that needs the user.
pub open spec fn stops_at(plan: Seq<PlannedStep>, j: int) -> bool {
    &&& 0 <= j < plan.len()
    &&& interactive_at(plan, j)
    &&& forall|k: int| 0 <= k < j ==> !interactive_at(plan, k)
}

/// Some step of `plan` needs the user.
pub open spec fn stops(plan: Seq<PlannedStep>) -> bool {
    exists|j: int| stops_at(plan, j)
}

/// The number of steps of `plan` that become nodes: up to and with the
/// first that needs the user.
pub open spec fn taken(plan: Seq<PlannedStep>) -> int {
    if stops(plan) {
        (choose|j: int| stops_at(plan, j)) + 1
    } else {
        plan.len() as int
    }
}

/// The graph as it is built, task by task: the planned step of node `i + 1`
/// and the nodes it waits for, the last node of each finished task, and
/// whether building stopped at a step that needs the user or failed at a
/// task without steps.
pub struct BuildView {
    pub steps: Seq<PlannedStep>,
    pub deps: Seq<Seq<NodeId>>,
    pub last: Map<int, NodeId>,
    pub stopped: bool,
    pub failed: Option<int>,
}

/// The last nodes of the finished tasks among `ds`, in order.
pub open spec fn linked_deps(last: Map<int, NodeId>, ds: Seq<usize>) -> Seq<NodeId>
    decreases ds.len(),
{
    if ds.len() == 0 {
        Seq::empty()
    } else {
        linked_deps(last, ds.drop_last()) + (if last.contains_key(ds.last() as int) {
            seq![last[ds.last() as int]]
        } else {
            Seq::empty()
        })
    }
}

/// What the `c` new nodes after node `base` wait for: the first waits for
/// `first`, each other one for the node before it.
pub open spec fn chain_deps(base: int, c: int, first: Seq<NodeId>) -> Seq<Seq<NodeId>> {
    Seq::new(
        c as nat,
        |j: int|
            if j == 0 {
                first
            } else {
                seq![(base + j) as NodeId]
            },
    )
}

/// The graph after task `t`, whose steps are `plan`, joins `v`.
pub open spec fn after_task(v: BuildView, plan: Seq<PlannedStep>, first: Seq<NodeId>, t: int) -> BuildView {
    if plan.len() == 0 {
        BuildView { failed: Some(t), ..v }
    } else {
        let c = taken(plan);
        let base = v.steps.len() as int;
        BuildView {
            steps: v.steps + plan.take(c),
            deps: v.deps + chain_deps(base, c, first),
            last: if stops(plan) {
                v.last
            } else {
                v.last.insert(t, (base + c) as NodeId)
            },
            stopped: stops(plan),
            failed: None,
        }
    }
}

/// The graph after the first `t` tasks, whose steps are `plans` and whose
/// dependencies are `depends`.
pub open spec fn build_view(plans: Seq<Seq<PlannedStep>>, depends: Seq<Seq<usize>>, t: int) -> BuildView
    decreases t,
{
    if t <= 0 {
        BuildView {
            steps: Seq::empty(),
            deps: Seq::empty(),
            last: Map::empty(),
            stopped: false,
            failed: None,
        }
    } else {
        let v = build_view(plans, depends, t - 1);
        if v.stopped || v.failed is Some {
            v
        } else {
            after_task(v, plans[t - 1], linked_deps(v.last, depends[t - 1]), t - 1)
        }
    }
}

/// `n` is node `id`, calling the planned step `p`.
pub open spec fn node_is(n: ExecutionNode, id: NodeId, p: PlannedStep) -> bool {
    &&& n.id == id
    &&& n.kind == node_kind_for(p.name)
    &&& n.tool_name@ == p.name
    &&& hint_is(n.args_hint, p.hint)
    &&& strings_view(n.required_artifact_refs) == p.requires
    &&& match p.produces {
        Some((r, k)) => n.produces_artifacts@.len() == 1 && n.produces_artifacts@[0].ref_name@ == r
            && n.produces_artifacts@[0].kind == k,
        None => n.produces_artifacts@.len() == 0,
    }
}

/// The maps and ordering of a graph hold node `i + 1` for each step `i`,
/// in order, waiting for `dseq[i]`.
pub open spec fn graph_state(
    nodes: Map<NodeId, ExecutionNode>,
    deps: Map<NodeId, Vec<NodeId>>,
    ordering: Seq<NodeId>,
    steps: Seq<PlannedStep>,
    dseq: Seq<Seq<NodeId>>,
) -> bool {
    let n = steps.len();
    &&& dseq.len() == n
    &&& ordering.len() == n
    &&& forall|i: int| 0 <= i < n ==> ordering[i] == (i + 1) as NodeId
    &&& forall|id: NodeId| nodes.contains_key(id) <==> 1 <= id <= n
    &&& forall|i: int|
        0 <= i < n ==> node_is(#[trigger] nodes[(i + 1) as NodeId], (i + 1) as NodeId, steps[i])
    &&& forall|id: NodeId| deps.contains_key(id) <==> (1 <= id <= n && dseq[id - 1].len() > 0)
    &&& forall|id: NodeId| #[trigger] deps.contains_key(id) ==> deps[id]@ == dseq[id - 1]
}

/// `g` is the graph that `v` describes.
pub open spec fn graph_is(g: ExecutionGraph, v: BuildView) -> bool {
    graph_state(g.nodes@, g.dependencies@, g.ordering@, v.steps, v.deps)
}

proof fn lemma_build_view_settled(plans: Seq<Seq<PlannedStep>>, depends: Seq<Seq<usize>>, t: int, u: int)
    requires
        0 <= t <= u,
        build_view(plans, depends, t).stopped || build_view(plans, depends, t).failed is Some,
    ensures
        build_view(plans, depends, u) == build_view(plans, depends, t),
    decreases u - t,
{
    if u > t {
        lemma_build_view_settled(plans, depends, t, u - 1);
    }
}

proof fn lemma_stops_at_unique(plan: Seq<PlannedStep>, j: int)
    requires
        stops_at(plan, j),
    ensures
        stops(plan),
        taken(plan) == j + 1,
{
    let c = choose|c: int| stops_at(plan, c);
    if c < j {
        assert(!interactive_at(plan, c));
    }
    if c > j {
        assert(!interactive_at(plan, j));
    }
}

/// Each node of `v` waits only for nodes before it, and the last node of
/// each finished task is one of its nodes.
pub open spec fn view_wf(v: BuildView) -> bool {
    &&& v.deps.len() == v.steps.len()
    &&& forall|i: int, k: int|
        0 <= i < v.deps.len() && 0 <= k < v.deps[i].len() ==> 1 <= #[trigger] v.deps[i][k] <= i
    &&& forall|t: int| #[trigger] v.last.contains_key(t) ==> 1 <= v.last[t] <= v.steps.len()
}

proof fn lemma_linked_deps_bound(last: Map<int, NodeId>, ds: Seq<usize>, n: int)
    requires
        forall|t: int| #[trigger] last.contains_key(t) ==> 1 <= last[t] <= n,
    ensures
        forall|k: int| 0 <= k < linked_deps(last, ds).len() ==> 1 <= #[trigger] linked_deps(last, ds)[k] <= n,
    decreases ds.len(),
{
    if ds.len() > 0 {
        lemma_linked_deps_bound(last, ds.drop_last(), n);
        let a = linked_deps(last, ds.drop_last());
        let b: Seq<NodeId> = if last.contains_key(ds.last() as int) {
            seq![last[ds.last() as int]]
        } else {
            Seq::empty()
        };
        assert(linked_deps(last, ds) == a + b);
        assert forall|k: int| 0 <= k < (a + b).len() implies 1 <= #[trigger] (a + b)[k] <= n by {
            if k >= a.len() {
                assert((a + b)[k] == b[k - a.len()]);
            } else {
                assert((a + b)[k] == a[k]);
            }
        }
    }
}

proof fn lemma_build_view_wf(plans: Seq<Seq<PlannedStep>>, depends: Seq<Seq<usize>>, t: int)
    requires
        0 <= t <= plans.len(),
        plans.len() == depends.len(),
        plans.len() < 0x5000_0000,
        forall|i: int| 0 <= i < plans.len() ==> #[trigger] plans[i].len() <= 3,
    ensures
        view_wf(build_view(plans, depends, t)),
        build_view(plans, depends, t).steps.len() <= 3 * t,
    decreases t,
{
    if t > 0 {
        lemma_build_view_wf(plans, depends, t - 1);
        let v = build_view(plans, depends, t - 1);
        if !(v.stopped || v.failed is Some) {
            let plan = plans[t - 1];
            if plan.len() > 0 {
                let first = linked_deps(v.last, depends[t - 1]);
                lemma_linked_deps_bound(v.last, depends[t - 1], v.steps.len() as int);
                let c = taken(plan);
                if stops(plan) {
                    let j = choose|j: int| stops_at(plan, j);
                }
                let base = v.steps.len() as int;
                let w = build_view(plans, depends, t);
                assert(w == after_task(v, plan, first, t - 1));
                assert forall|i: int, k: int|
                    0 <= i < w.deps.len() && 0 <= k < w.deps[i].len() implies 1 <= #[trigger] w.deps[i][k] <= i by {
                    if i >= base {
                        let cd = chain_deps(base, c, first);
                        assert(w.deps[i] == cd[i - base]);
                    }
                }
            }
        }
    }
}

/// The kind of node that calls the tool named `name`.
fn kind_for(name: &str) -> (k: NodeKind)
    ensures
        k == node_kind_for(name@),
{
    match ToolEntry::from_name(name) {
        Some(e) => match e.capability {
            Some(CapabilityKind::Interact) => NodeKind::Interaction,
            _ => NodeKind::Execution,
        },
        None => NodeKind::Execution,
    }
}

/// A graph built from tasks names only nodes it has, and each node waits
/// only for nodes with smaller numbers, which run before it; so no node can
/// reach a cycle of waiting.
pub proof fn lemma_built_graph_acyclic(
    tasks: &TaskDecomposition,
    registry: CapabilityRegistry,
    tools: Seq<JsonValue>,
    cwd: Seq<char>,
    fs: Map<Seq<char>, bool>,
    test_command: Option<Seq<char>>,
    g: ExecutionGraph,
)
    requires
        tasks.tasks@.len() < 0x5000_0000,
        graph_is(g, tasks.build_spec(registry, tools, cwd, fs, test_command)),
    ensures
        g.ordering_known(),
        g.dependencies_known(),
        forall|a: NodeId, b: NodeId| #[trigger] has_edge(g.dependencies@, a, b) ==> b < a,
        acyclic_from(g.dependencies@, g.ordering@),
{
    let plans = tasks.plans(registry, tools, cwd, fs, test_command);
    let depends = tasks.depends();
    let total = tasks.tasks@.len() as int;
    assert forall|i: int| 0 <= i < plans.len() implies #[trigger] plans[i].len() <= 3 by {
        lemma_plan_len(tasks.tasks@[i], registry, tools, cwd, fs, test_command);
    }
    lemma_build_view_wf(plans, depends, total);
    let v = build_view(plans, depends, total);
    let n = v.steps.len();
    let deps = g.dependencies@;
    assert forall|a: NodeId, b: NodeId| #[trigger] has_edge(deps, a, b) implies 1 <= b < a && 1 <= a <= n by {
        assert(deps.contains_key(a));
        let k = choose|k: int| 0 <= k < deps[a]@.len() && deps[a]@[k] == b;
        assert(v.deps[a - 1][k] == b);
    }
    assert forall|i: int| 0 <= i < g.ordering@.len() implies g.nodes@.contains_key(g.ordering@[i]) by {
        assert(g.ordering@[i] == (i + 1) as NodeId);
    }
    assert forall|a: NodeId, b: NodeId|
        g.dependencies@.contains_key(a) && #[trigger] g.dependencies@[a]@.contains(b) implies g.nodes@.contains_key(b) by {
        assert(has_edge(deps, a, b));
    }
    let s = Set::new(|id: NodeId| 1 <= id <= n);
    let rank = |id: NodeId| id as nat;
    assert forall|i: int| 0 <= i < g.ordering@.len() implies s.contains(#[trigger] g.ordering@[i]) by {
        assert(g.ordering@[i] == (i + 1) as NodeId);
    }
    assert(ranked_closed(deps, g.ordering@, s, rank));
}

proof fn lemma_taken_positive(plan: Seq<PlannedStep>)
    requires
        plan.len() > 0,
    ensures
        1 <= taken(plan) <= plan.len(),
{
    if stops(plan) {
        let j = choose|j: int| stops_at(plan, j);
        lemma_stops_at_unique(plan, j);
    }
}

proof fn lemma_build_view_nonempty(plans: Seq<Seq<PlannedStep>>, depends: Seq<Seq<usize>>, t: int)
    requires
        1 <= t,
    ensures
        build_view(plans, depends, t).failed is Some || build_view(plans, depends, t).steps.len() > 0,
    decreases t,
{
    let v = build_view(plans, depends, t - 1);
    if t > 1 {
        lemma_build_view_nonempty(plans, depends, t - 1);
    }
    if !(v.stopped || v.failed is Some) {
        let plan = plans[t - 1];
        if plan.len() > 0 {
            lemma_taken_positive(plan);
        }
    }
}

/// The numbers of the nodes that begin a task, after the first `t` tasks.
pub open spec fn task_starts(plans: Seq<Seq<PlannedStep>>, depends: Seq<Seq<usize>>, t: int) -> Set<
    NodeId,
>
    decreases t,
{
    if t <= 0 {
        Set::empty()
    } else {
        let v = build_view(plans, depends, t - 1);
        let s = task_starts(plans, depends, t - 1);
        if v.stopped || v.failed is Some || plans[t - 1].len() == 0 {
            s
        } else {
            s.insert((v.steps.len() + 1) as NodeId)
        }
    }
}

proof fn lemma_chain_within_tasks(plans: Seq<Seq<PlannedStep>>, depends: Seq<Seq<usize>>, t: int)
    requires
        0 <= t <= plans.len(),
        plans.len() == depends.len(),
        plans.len() < 0x5000_0000,
        forall|i: int| 0 <= i < plans.len() ==> #[trigger] plans[i].len() <= 3,
    ensures
        forall|i: int|
            0 <= i < build_view(plans, depends, t).steps.len() && !task_starts(plans, depends, t).contains(
                (i + 1) as NodeId,
            ) ==> #[trigger] build_view(plans, depends, t).deps[i] == seq![i as NodeId],
    decreases t,
{
    if t > 0 {
        lemma_chain_within_tasks(plans, depends, t - 1);
        lemma_build_view_wf(plans, depends, t - 1);
        lemma_build_view_wf(plans, depends, t);
        let v = build_view(plans, depends, t - 1);
        let s = task_starts(plans, depends, t - 1);
        if !(v.stopped || v.failed is Some) {
            let plan = plans[t - 1];
            if plan.len() > 0 {
                let first = linked_deps(v.last, depends[t - 1]);
                let c = taken(plan);
                lemma_taken_positive(plan);
                let base = v.steps.len() as int;
                let w = build_view(plans, depends, t);
                assert(w == after_task(v, plan, first, t - 1));
                let s2 = task_starts(plans, depends, t);
                assert(s2 == s.insert((base + 1) as NodeId));
                assert forall|i: int| 0 <= i < w.steps.len() && !s2.contains((i + 1) as NodeId) implies #[trigger] w.deps[i]
                    == seq![i as NodeId] by {
                    if i < base {
                        assert(w.deps[i] == v.deps[i]);
                        assert(!s.contains((i + 1) as NodeId));
                    } else {
                        assert(w.deps[i] == chain_deps(base, c, first)[i - base]);
                        assert(i != base);
                    }
                }
            }
        }
    }
}

/// Within a task, each node after the first waits exactly for the node
/// before it.
pub proof fn lemma_built_graph_chains(
    tasks: &TaskDecomposition,
    registry: CapabilityRegistry,
    tools: Seq<JsonValue>,
    cwd: Seq<char>,
    fs: Map<Seq<char>, bool>,
    test_command: Option<Seq<char>>,
    g: ExecutionGraph,
)
    requires
        tasks.tasks@.len() < 0x5000_0000,
        graph_is(g, tasks.build_spec(registry, tools, cwd, fs, test_command)),
    ensures
        forall|id: NodeId|
            #[trigger] g.nodes@.contains_key(id) && !task_starts(
                tasks.plans(registry, tools, cwd, fs, test_command),
                tasks.depends(),
                tasks.tasks@.len() as int,
            ).contains(id) ==> g.dependencies@.contains_key(id) && g.dependencies@[id]@ == seq![(id - 1) as NodeId],
{
    let plans = tasks.plans(registry, tools, cwd, fs, test_command);
    let depends = tasks.depends();
    let total = tasks.tasks@.len() as int;
    assert forall|i: int| 0 <= i < plans.len() implies #[trigger] plans[i].len() <= 3 by {
        lemma_plan_len(tasks.tasks@[i], registry, tools, cwd, fs, test_command);
    }
    lemma_chain_within_tasks(plans, depends, total);
    let v = build_view(plans, depends, total);
    assert forall|id: NodeId|
        #[trigger] g.nodes@.contains_key(id) && !task_starts(plans, depends, total).contains(id) implies g.dependencies@.contains_key(id)
        && g.dependencies@[id]@ == seq![(id - 1) as NodeId] by {
        let i = id - 1;
        assert(((i + 1) as NodeId) == id);
        assert(v.deps[i] == seq![i as NodeId]);
    }
}

/// A graph that building tasks yields runs its nodes in the order
/// 1, 2, ..., n; it holds exactly those nodes, each under its own number;
/// each node that waits, waits for at least one node, and only for nodes
/// with smaller numbers; and it has nodes exactly when there are tasks.
pub proof fn lemma_built_graph_shape(
    tasks: &TaskDecomposition,
    registry: CapabilityRegistry,
    tools: Seq<JsonValue>,
    cwd: Seq<char>,
    fs: Map<Seq<char>, bool>,
    test_command: Option<Seq<char>>,
    g: ExecutionGraph,
)
    requires
        tasks.tasks@.len() < 0x5000_0000,
        tasks.build_spec(registry, tools, cwd, fs, test_command).failed is None,
        graph_is(g, tasks.build_spec(registry, tools, cwd, fs, test_command)),
    ensures
        forall|i: int| 0 <= i < g.ordering@.len() ==> g.ordering@[i] == (i + 1) as NodeId,
        forall|id: NodeId| g.nodes@.contains_key(id) <==> g.ordering@.contains(id),
        forall|id: NodeId| #[trigger] g.nodes@.contains_key(id) ==> g.nodes@[id].id == id,
        forall|id: NodeId| #[trigger] g.dependencies@.contains_key(id) ==> g.dependencies@[id]@.len() > 0,
        forall|a: NodeId, b: NodeId| #[trigger] has_edge(g.dependencies@, a, b) ==> b < a,
        g.ordering@.len() == 0 <==> tasks.tasks@.len() == 0,
{
    lemma_built_graph_acyclic(tasks, registry, tools, cwd, fs, test_command, g);
    let v = tasks.build_spec(registry, tools, cwd, fs, test_command);
    let n = v.steps.len();
    assert forall|id: NodeId| g.nodes@.contains_key(id) <==> g.ordering@.contains(id) by {
        if g.nodes@.contains_key(id) {
            assert(g.ordering@[id - 1] == id);
        }
        if g.ordering@.contains(id) {
            let i = choose|i: int| 0 <= i < g.ordering@.len() && g.ordering@[i] == id;
        }
    }
    assert forall|id: NodeId| #[trigger] g.nodes@.contains_key(id) implies g.nodes@[id].id == id by {
        let i = id - 1;
        assert(node_is(g.nodes@[(i + 1) as NodeId], (i + 1) as NodeId, v.steps[i]));
    }
    if tasks.tasks@.len() > 0 {
        lemma_build_view_nonempty(
            tasks.plans(registry, tools, cwd, fs, test_command),
            tasks.depends(),
            tasks.tasks@.len() as int,
        );
    }
}

/// Each task has at most three steps.
proof fn lemma_plan_len(
    task: TaskIntent,
    registry: CapabilityRegistry,
    tools: Seq<JsonValue>,
    cwd: Seq<char>,
    fs: Map<Seq<char>, bool>,
    test_command: Option<Seq<char>>,
)
    ensures
        task.plan_spec(registry, tools, cwd, fs, test_command).len() <= 3,
{
    let p = task.path_plan(tools, cwd, fs);
    match task.relative_path {
        None => {},
        Some(ps) => {
            let (exists, is_dir, abs) = crate::validation::utils::check_spec(
                crate::planner::action::intent::path_text(ps@),
                cwd,
                fs,
            );
            match crate::planner::execution::steps::SemanticOp::from_action_spec(
                task.action,
                task.write_disposition,
                exists,
                is_dir,
                abs,
            ) {
                Some(op) => {
                    match op.resolve_spec(exists, is_dir, abs) {
                        Ok(views) => lemma_offered_plan_len(views, tools),
                        Err(_) => {
                            let l = crate::planner::execution::steps::SemanticOp::ListDirectory;
                            match l.resolve_spec(exists, is_dir, abs) {
                                Ok(views) => lemma_offered_plan_len(views, tools),
                                Err(_) => {},
                            }
                        },
                    }
                },
                None => {},
            }
        },
    }
}

impl TaskDecomposition {
    /// The steps of each task.
    pub open spec fn plans(
        &self,
        registry: CapabilityRegistry,
        tools: Seq<JsonValue>,
        cwd: Seq<char>,
        fs: Map<Seq<char>, bool>,
        test_command: Option<Seq<char>>,
    ) -> Seq<Seq<PlannedStep>> {
        Seq::new(
            self.tasks@.len(),
            |i: int| self.tasks@[i].plan_spec(registry, tools, cwd, fs, test_command),
        )
    }

    /// The tasks that each task depends on.
    pub open spec fn depends(&self) -> Seq<Seq<usize>> {
        Seq::new(self.tasks@.len(), |i: int| self.tasks@[i].depends_on@)
    }

    /// The graph that the tasks make.
    pub open spec fn build_spec(
        &self,
        registry: CapabilityRegistry,
        tools: Seq<JsonValue>,
        cwd: Seq<char>,
        fs: Map<Seq<char>, bool>,
        test_command: Option<Seq<char>>,
    ) -> BuildView {
        build_view(
            self.plans(registry, tools, cwd, fs, test_command),
            self.depends(),
            self.tasks@.len() as int,
        )
    }

    /// The execution graph of the tasks; refused with the action of the
    /// first task that no offered tool can carry out.
    #[verifier::rlimit(60)]
    #[verifier::spinoff_prover]
    pub fn build(
        &self,
        registry: &CapabilityRegistry,
        tools: &[JsonValue],
        cwd: &str,
        fs: &FsSnapshot,
        test_command: Option<&str>,
    ) -> (r: Result<ExecutionGraph, ExecutionContractError>)
        requires
            registry.wf(),
            fs.wf(),
            self.tasks@.len() < 0x5000_0000,
        ensures
            ({
                let v = self.build_spec(*registry, tools@, cwd@, fs@, opt_str(test_command));
                match r {
                    Ok(g) => v.failed is None && graph_is(g, v),
                    Err(e) => v.failed is Some && 0 <= v.failed->0 < self.tasks@.len()
                        && e@ == ContractErrorView::NoToolForAction(self.tasks@[v.failed->0].action),
                }
            }),
    {
        let ghost plans = self.plans(*registry, tools@, cwd@, fs@, opt_str(test_command));
        let ghost depends = self.depends();
        let ghost total = self.tasks@.len() as int;
        let mut nodes: HashMap<NodeId, ExecutionNode> = HashMap::new();
        let mut dependencies: HashMap<NodeId, Vec<NodeId>> = HashMap::new();
        let mut ordering: Vec<NodeId> = Vec::new();
        let mut task_last: Vec<Option<NodeId>> = Vec::new();
        let mut next_node_id: NodeId = 1;
        let ghost mut gv = build_view(plans, depends, 0);
        let mut t: usize = 0;
        while t < self.tasks.len()
            invariant
                t <= total,
                total == self.tasks@.len(),
                total < 0x5000_0000,
                gv == build_view(plans, depends, t as int),
                !gv.stopped,
                gv.failed is None,
                graph_state(nodes@, dependencies@, ordering@, gv.steps, gv.deps),
                next_node_id == gv.steps.len() + 1,
                gv.steps.len() <= 3 * t,
                task_last@.len() == t,
                forall|k: int| #[trigger] gv.last.contains_key(k) <==> (0 <= k < t && task_last@[k] is Some),
                forall|k: int| 0 <= k < t && #[trigger] task_last@[k] is Some ==> gv.last[k] == task_last@[k]->0,
            decreases total - t,
        {
            let task = &self.tasks[t];
            let steps = task.resolve_steps(registry, tools, cwd, fs, test_command);
            let ghost plan = plans[t as int];
            if steps.len() == 0 {
                proof {
                    let v2 = build_view(plans, depends, t + 1);
                    assert(v2.failed == Some(t as int));
                    lemma_build_view_settled(plans, depends, t + 1, total);
                }
                return Err(ExecutionContractError::NoToolForAction(task.action));
            }
            let mut dep_ids: Vec<NodeId> = Vec::new();
            let mut q: usize = 0;
            while q < task.depends_on.len()
                invariant
                    q <= task.depends_on@.len(),
                    dep_ids@ == linked_deps(gv.last, task.depends_on@.take(q as int)),
                decreases task.depends_on@.len() - q,
            {
                let d = task.depends_on[q];
                proof {
                    assert(task.depends_on@.take(q + 1).drop_last() =~= task.depends_on@.take(q as int));
                    assert(task.depends_on@.take(q + 1).last() == d);
                }
                if d < task_last.len() {
                    match task_last[d] {
                        Some(id) => {
                            dep_ids.push(id);
                            proof {
                                assert(gv.last.contains_key(d as int));
                            }
                        },
                        None => {
                            proof {
                                assert(!gv.last.contains_key(d as int));
                                assert(dep_ids@ =~= dep_ids@ + Seq::<NodeId>::empty());
                            }
                        },
                    }
                } else {
                    proof {
                        assert(!gv.last.contains_key(d as int));
                        assert(dep_ids@ =~= dep_ids@ + Seq::<NodeId>::empty());
                    }
                }
                q = q + 1;
            }
            proof {
                assert(task.depends_on@.take(task.depends_on@.len() as int) =~= task.depends_on@);
                assert(depends[t as int] == task.depends_on@);
            }
            let ghost first = dep_ids@;
            let ghost base = gv.steps.len() as int;
            let mut steps = steps;
            let n = steps.len();
            let mut j: usize = 0;
            let mut stopped = false;
            proof {
                assert(plan.take(0) =~= Seq::<PlannedStep>::empty());
                assert(chain_deps(base, 0, first) =~= Seq::<Seq<NodeId>>::empty());
                assert(gv.steps + plan.take(0) =~= gv.steps);
                assert(gv.deps + chain_deps(base, 0, first) =~= gv.deps);
            }
            while j < n
                invariant
                    n == plan.len(),
                    n <= 3,
                    j <= n,
                    !stopped,
                    base == gv.steps.len(),
                    base + 1 + n <= 0xF000_0000,
                    steps@.len() == n - j,
                    forall|k: int| 0 <= k < n - j ==> step_planned(#[trigger] steps@[k], plan[k + j]),
                    forall|k: int| 0 <= k < j ==> !interactive_at(plan, k),
                    j == 0 ==> dep_ids@ == first,
                    next_node_id == base + j + 1,
                    graph_state(
                        nodes@,
                        dependencies@,
                        ordering@,
                        gv.steps + plan.take(j as int),
                        gv.deps + chain_deps(base, j as int, first),
                    ),
                decreases n - j,
            {
                let ghost before = steps@;
                let step = steps.remove(0);
                proof {
                    assert(step_planned(before[0], plan[j as int]));
                    assert forall|k: int| 0 <= k < n - j - 1 implies step_planned(#[trigger] steps@[k], plan[k + j + 1]) by {
                        assert(steps@[k] == before[k + 1]);
                        assert(step_planned(before[k + 1], plan[k + 1 + j]));
                    }
                }
                let node_id = next_node_id;
                next_node_id = next_node_id + 1;
                let mut node_deps: Vec<NodeId> = Vec::new();
                if j > 0 {
                    node_deps.push(node_id - 1);
                } else {
                    std::mem::swap(&mut node_deps, &mut dep_ids);
                }
                let ghost nd = node_deps@;
                proof {
                    assert(nd == chain_deps(base, j + 1, first)[j as int]);
                }
                if node_deps.len() > 0 {
                    dependencies.insert(node_id, node_deps);
                }
                let kind = kind_for(step.tool_name.as_str());
                let produces_artifacts: Vec<ArtifactSpec> = match step.produces_artifact {
                    Some(s) => {
                        let mut v: Vec<ArtifactSpec> = Vec::new();
                        v.push(s);
                        v
                    },
                    None => Vec::new(),
                };
                let node = ExecutionNode {
                    id: node_id,
                    kind,
                    tool_name: step.tool_name,
                    required_artifact_refs: step.requires_artifact,
                    produces_artifacts,
                    args_hint: step.args_hint,
                };
                proof {
                    assert(node_is(node, node_id, plan[j as int]));
                }
                nodes.insert(node_id, node);
                ordering.push(node_id);
                proof {
                    let s1 = gv.steps + plan.take(j + 1);
                    let d1 = gv.deps + chain_deps(base, j + 1, first);
                    let s0 = gv.steps + plan.take(j as int);
                    let d0 = gv.deps + chain_deps(base, j as int, first);
                    assert(s1 =~= s0.push(plan[j as int]));
                    assert(d1 =~= d0.push(nd));
                    assert forall|i: int| 0 <= i < s1.len() implies node_is(
                        #[trigger] nodes@[(i + 1) as NodeId],
                        (i + 1) as NodeId,
                        s1[i],
                    ) by {
                        if i < s0.len() {
                            assert((i + 1) as NodeId != node_id);
                        }
                    }
                    assert forall|id: NodeId| #[trigger] dependencies@.contains_key(id) implies dependencies@[id]@ == d1[id - 1] by {
                        if id != node_id {
                            assert(d1[id - 1] == d0[id - 1]);
                        }
                    }
                    assert forall|id: NodeId| dependencies@.contains_key(id) <==> (1 <= id <= s1.len() && d1[id - 1].len() > 0) by {
                        if id != node_id && 1 <= id <= s1.len() {
                            assert(d1[id - 1] == d0[id - 1]);
                        }
                    }
                    assert(graph_state(nodes@, dependencies@, ordering@, s1, d1));
                }
                j = j + 1;
                if kind == NodeKind::Interaction {
                    stopped = true;
                    break;
                }
            }
            if stopped {
                proof {
                    lemma_stops_at_unique(plan, j - 1);
                    let v2 = build_view(plans, depends, t + 1);
                    assert(v2.stopped);
                    assert(v2.steps == gv.steps + plan.take(j as int));
                    assert(v2.deps == gv.deps + chain_deps(base, j as int, first));
                    lemma_build_view_settled(plans, depends, t + 1, total);
                }
                return Ok(ExecutionGraph { nodes, dependencies, ordering });
            }
            proof {
                if stops(plan) {
                    let c = choose|c: int| stops_at(plan, c);
                    assert(!interactive_at(plan, c));
                }
                assert(plan.take(n as int) =~= plan);
                let v2 = build_view(plans, depends, t + 1);
                assert(v2 == after_task(gv, plan, first, t as int));
                assert(!v2.stopped);
                assert(v2.failed is None);
            }
            task_last.push(Some(next_node_id - 1));
            proof {
                gv = build_view(plans, depends, t + 1);
            }
            t = t + 1;
        }
        Ok(ExecutionGraph { nodes, dependencies, ordering })
    }
}

} // verus!
