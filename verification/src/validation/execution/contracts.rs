//! The contract that a whole execution graph must meet before it runs: it
//! has nodes, no node waits on itself through its dependencies, and every
//! artifact a node needs is produced by a node that runs before it.
use vstd::prelude::*;

use std::collections::{HashMap, HashSet};

use super::types::{ContractErrorView, ExecutionContractError};
use crate::artifact::ArtifactSpec;
use crate::planner::execution::graph::{has_edge, deps_of};
use crate::planner::{ExecutionGraph, ExecutionNode, NodeId};
use crate::strmap::StrMap;
use crate::validation::Validate;

verus! {

broadcast use vstd::std_specs::hash::group_hash_axioms;

/// The context of the contract check; it needs nothing.
pub struct ContractContext;

// ---------------------------------------------------------------------------
// Cycles
// ---------------------------------------------------------------------------

/// `w` is a walk along dependencies: each node waits for the next.
pub open spec fn is_walk(deps: Map<NodeId, Vec<NodeId>>, w: Seq<NodeId>) -> bool {
    w.len() > 0 && forall|i: int| 0 <= i < w.len() - 1 ==> #[trigger] has_edge(deps, w[i], w[i + 1])
}

/// `c` is a cycle: a walk whose last node waits for its first.
pub open spec fn is_cycle(deps: Map<NodeId, Vec<NodeId>>, c: Seq<NodeId>) -> bool {
    is_walk(deps, c) && has_edge(deps, c.last(), c[0])
}

/// Some cycle can be reached from one of `roots` along dependencies.
pub open spec fn reaches_cycle(deps: Map<NodeId, Vec<NodeId>>, roots: Seq<NodeId>) -> bool {
    exists|w: Seq<NodeId>, c: Seq<NodeId>|
        is_walk(deps, w) && roots.contains(w[0]) && is_cycle(deps, c) && w.last() == c[0]
}

/// `s` holds every root and every dependency of each of its members, and
/// `rank` falls along each dependency from a member of `s`.
pub open spec fn ranked_closed(
    deps: Map<NodeId, Vec<NodeId>>,
    roots: Seq<NodeId>,
    s: Set<NodeId>,
    rank: spec_fn(NodeId) -> nat,
) -> bool {
    &&& forall|i: int| 0 <= i < roots.len() ==> s.contains(#[trigger] roots[i])
    &&& forall|u: NodeId, v: NodeId|
        s.contains(u) && #[trigger] has_edge(deps, u, v) ==> s.contains(v) && rank(v) < rank(u)
}

/// Everything reachable from `roots` can be ranked so that each node
/// ranks above the nodes it waits for.
pub open spec fn acyclic_from(deps: Map<NodeId, Vec<NodeId>>, roots: Seq<NodeId>) -> bool {
    exists|s: Set<NodeId>, rank: spec_fn(NodeId) -> nat| ranked_closed(deps, roots, s, rank)
}

proof fn lemma_walk_stays_in(
    deps: Map<NodeId, Vec<NodeId>>,
    roots: Seq<NodeId>,
    s: Set<NodeId>,
    rank: spec_fn(NodeId) -> nat,
    w: Seq<NodeId>,
    i: int,
)
    requires
        ranked_closed(deps, roots, s, rank),
        is_walk(deps, w),
        s.contains(w[0]),
        0 <= i < w.len(),
    ensures
        s.contains(w[i]),
        rank(w[i]) + i <= rank(w[0]),
    decreases i,
{
    if i > 0 {
        lemma_walk_stays_in(deps, roots, s, rank, w, i - 1);
        let j = i - 1;
        assert(has_edge(deps, w[j], w[j + 1]));
    }
}

/// A ranked closure of the roots leaves no cycle that the roots can reach.
pub proof fn lemma_acyclic_from_reaches_no_cycle(
    deps: Map<NodeId, Vec<NodeId>>,
    roots: Seq<NodeId>,
)
    requires
        acyclic_from(deps, roots),
    ensures
        !reaches_cycle(deps, roots),
{
    let (s, rank) = choose|s: Set<NodeId>, rank: spec_fn(NodeId) -> nat|
        ranked_closed(deps, roots, s, rank);
    if reaches_cycle(deps, roots) {
        let (w, c) = choose|w: Seq<NodeId>, c: Seq<NodeId>|
            is_walk(deps, w) && roots.contains(w[0]) && is_cycle(deps, c) && w.last() == c[0];
        let k = choose|k: int| 0 <= k < roots.len() && roots[k] == w[0];
        assert(s.contains(roots[k]));
        lemma_walk_stays_in(deps, roots, s, rank, w, w.len() - 1);
        lemma_walk_stays_in(deps, roots, s, rank, c, c.len() - 1);
        assert(has_edge(deps, c.last(), c[0]));
    }
}

/// The state of the depth-first search: the nodes on the stack are
/// visited; every visited node off the stack is finished, has a rank
/// below `next`, and waits only for finished nodes of lower rank.
pub open spec fn dfs_inv(
    deps: Map<NodeId, Vec<NodeId>>,
    visited: Set<NodeId>,
    stack: Set<NodeId>,
    rank: Map<NodeId, nat>,
    next: nat,
) -> bool {
    &&& stack.subset_of(visited)
    &&& forall|u: NodeId|
        #![trigger visited.contains(u)]
        visited.contains(u) && !stack.contains(u) ==> rank.contains_key(u) && rank[u] < next
    &&& forall|u: NodeId, v: NodeId|
        visited.contains(u) && !stack.contains(u) && #[trigger] has_edge(deps, u, v) ==> visited.contains(
            v,
        ) && !stack.contains(v) && rank[v] < rank[u]
}

/// `path` leads from a root to a node that waits for `node`, or is empty
/// and `node` is a root.
pub open spec fn path_to(
    deps: Map<NodeId, Vec<NodeId>>,
    roots: Seq<NodeId>,
    path: Seq<NodeId>,
    node: NodeId,
) -> bool {
    if path.len() == 0 {
        roots.contains(node)
    } else {
        is_walk(deps, path) && roots.contains(path[0]) && has_edge(deps, path.last(), node)
    }
}

proof fn lemma_push_to_set(path: Seq<NodeId>, node: NodeId)
    ensures
        path.push(node).to_set() == path.to_set().insert(node),
{
    let p2 = path.push(node);
    assert forall|x: NodeId| p2.to_set().contains(x) <==> path.to_set().insert(node).contains(x) by {
        if p2.contains(x) {
            let i = choose|i: int| 0 <= i < p2.len() && p2[i] == x;
            if i < path.len() {
                assert(path[i] == x);
                assert(path.contains(x));
            }
        }
        if path.contains(x) {
            let i = choose|i: int| 0 <= i < path.len() && path[i] == x;
            assert(p2[i] == x);
        }
        if x == node {
            assert(p2[path.len() as int] == x);
        }
    }
    assert(p2.to_set() =~= path.to_set().insert(node));
}

proof fn lemma_visited_bound(visited: Set<NodeId>)
    ensures
        visited.finite(),
        visited.len() <= Set::<NodeId>::full().len(),
{
    broadcast use vstd::set_lib::full_set_properties;

    let full = Set::<NodeId>::full();
    assert(visited.subset_of(full));
    vstd::set_lib::lemma_set_subset_finite(full, visited);
    vstd::set_lib::lemma_len_subset(visited, full);
}

/// `b` can be reached from `a` along dependencies (every node reaches
/// itself).
pub open spec fn reachable(deps: Map<NodeId, Vec<NodeId>>, a: NodeId, b: NodeId) -> bool {
    exists|w: Seq<NodeId>| is_walk(deps, w) && w[0] == a && w.last() == b
}

proof fn lemma_reach_self(deps: Map<NodeId, Vec<NodeId>>, a: NodeId)
    ensures
        reachable(deps, a, a),
{
    let w = seq![a];
    assert(is_walk(deps, w));
    assert(w[0] == a && w.last() == a);
}

proof fn lemma_reach_step(deps: Map<NodeId, Vec<NodeId>>, a: NodeId, b: NodeId, c: NodeId)
    requires
        has_edge(deps, a, b),
        reachable(deps, b, c),
    ensures
        reachable(deps, a, c),
{
    let w = choose|w: Seq<NodeId>| is_walk(deps, w) && w[0] == b && w.last() == c;
    let w2 = seq![a] + w;
    assert forall|i: int| 0 <= i < w2.len() - 1 implies #[trigger] has_edge(deps, w2[i], w2[i + 1]) by {
        if i > 0 {
            assert(w2[i] == w[i - 1]);
            assert(w2[i + 1] == w[i]);
            assert(has_edge(deps, w[i - 1], w[i - 1 + 1]));
        }
    }
    assert(is_walk(deps, w2));
    assert(w2[0] == a);
    assert(w2.last() == c);
}

/// A finished node waits, through any walk, only for finished nodes.
proof fn lemma_finished_walk(
    deps: Map<NodeId, Vec<NodeId>>,
    visited: Set<NodeId>,
    stack: Set<NodeId>,
    rank: Map<NodeId, nat>,
    next: nat,
    w: Seq<NodeId>,
)
    requires
        dfs_inv(deps, visited, stack, rank, next),
        is_walk(deps, w),
        visited.contains(w[0]),
        !stack.contains(w[0]),
    ensures
        visited.contains(w.last()),
        !stack.contains(w.last()),
    decreases w.len(),
{
    if w.len() > 1 {
        let p = w.drop_last();
        assert forall|i: int| 0 <= i < p.len() - 1 implies #[trigger] has_edge(deps, p[i], p[i + 1]) by {
            assert(has_edge(deps, w[i], w[i + 1]));
        }
        lemma_finished_walk(deps, visited, stack, rank, next, p);
        let j = w.len() - 2;
        assert(has_edge(deps, w[j], w[j + 1]));
    }
}

/// Visits `node` and everything it waits for; fails when it finds a node
/// that is still on the stack.
fn dfs_cycle_check(
    node: NodeId,
    dependencies: &HashMap<NodeId, Vec<NodeId>>,
    visited: &mut HashSet<NodeId>,
    stack: &mut HashSet<NodeId>,
    Ghost(roots): Ghost<Seq<NodeId>>,
    Ghost(path): Ghost<Seq<NodeId>>,
    Ghost(rank): Ghost<Map<NodeId, nat>>,
    Ghost(next): Ghost<nat>,
) -> (r: (Result<(), ExecutionContractError>, Ghost<(Map<NodeId, nat>, nat)>))
    requires
        dfs_inv(dependencies@, old(visited)@, old(stack)@, rank, next),
        !old(visited)@.contains(node),
        old(stack)@ == path.to_set(),
        path_to(dependencies@, roots, path, node),
    ensures
        match r.0 {
            Ok(()) => {
                let (rank2, next2) = r.1@;
                &&& dfs_inv(dependencies@, final(visited)@, final(stack)@, rank2, next2)
                &&& final(stack)@ == old(stack)@
                &&& old(visited)@.subset_of(final(visited)@)
                &&& final(visited)@.contains(node)
                &&& forall|v: NodeId| #[trigger]
                    final(visited)@.contains(v) <==> old(visited)@.contains(v) || reachable(
                        dependencies@,
                        node,
                        v,
                    )
                &&& next <= next2
                &&& forall|u: NodeId|
                    #![trigger old(visited)@.contains(u)]
                    old(visited)@.contains(u) && !old(stack)@.contains(u) ==> rank2.contains_key(u)
                        && rank2[u] == rank[u]
            },
            Err(e) => e is CyclicDependency && reaches_cycle(dependencies@, roots),
        },
    decreases Set::<NodeId>::full().len() - old(visited)@.len(),
{
    proof {
        lemma_visited_bound(visited@);
    }
    visited.insert(node);
    stack.insert(node);
    proof {
        lemma_visited_bound(visited@);
    }
    let ghost path2 = path.push(node);
    let ghost visited0 = old(visited)@;
    let ghost stack0 = old(stack)@;
    let ghost mut rank_c = rank;
    let ghost mut next_c = next;
    proof {
        lemma_reach_self(dependencies@, node);
        lemma_push_to_set(path, node);
        assert(stack@ =~= path2.to_set());
        assert(is_walk(dependencies@, path2)) by {
            if path.len() > 0 {
                assert forall|i: int| 0 <= i < path2.len() - 1 implies #[trigger] has_edge(
                    dependencies@,
                    path2[i],
                    path2[i + 1],
                ) by {
                    if i < path.len() - 1 {
                        assert(has_edge(dependencies@, path[i], path[i + 1]));
                    }
                }
            }
        }
        assert(roots.contains(path2[0])) by {
            if path.len() > 0 {
                assert(path2[0] == path[0]);
            }
        }
    }
    match dependencies.get(&node) {
        Some(deps) => {
            let mut k: usize = 0;
            while k < deps.len()
                invariant
                    dependencies@.contains_key(node),
                    dependencies@[node] == *deps,
                    k <= deps@.len(),
                    dfs_inv(dependencies@, visited@, stack@, rank_c, next_c),
                    stack@ == path2.to_set(),
                    stack@ == stack0.insert(node),
                    visited0.insert(node).subset_of(visited@),
                    forall|v: NodeId| #[trigger]
                        visited@.contains(v) ==> visited0.contains(v) || reachable(
                            dependencies@,
                            node,
                            v,
                        ),
                    next <= next_c,
                    is_walk(dependencies@, path2),
                    roots.contains(path2[0]),
                    path2.last() == node,
                    forall|u: NodeId|
                        #![trigger visited0.contains(u)]
                        visited0.contains(u) && !stack0.contains(u) ==> rank_c.contains_key(u)
                            && rank_c[u] == rank[u],
                    forall|j: int|
                        0 <= j < k ==> visited@.contains(#[trigger] deps@[j]) && !stack@.contains(
                            deps@[j],
                        ) && rank_c[deps@[j]] < next_c,
                decreases deps@.len() - k,
            {
                let dep = deps[k];
                proof {
                    assert(has_edge(dependencies@, node, dep));
                }
                if !visited.contains(&dep) {
                    let ghost v_before = visited@;
                    proof {
                        lemma_visited_bound(visited@);
                        lemma_visited_bound(visited0);
                        vstd::set_lib::lemma_len_subset(visited0.insert(node), visited@);
                    }
                    let ghost rank_before = rank_c;
                    let (res, g) = dfs_cycle_check(
                        dep,
                        dependencies,
                        visited,
                        stack,
                        Ghost(roots),
                        Ghost(path2),
                        Ghost(rank_c),
                        Ghost(next_c),
                    );
                    match res {
                        Err(e) => {
                            return (Err(e), Ghost((rank_c, next_c)));
                        },
                        Ok(()) => {
                            proof {
                                rank_c = g@.0;
                                next_c = g@.1;
                                assert forall|u: NodeId|
                                    #![trigger visited0.contains(u)]
                                    visited0.contains(u) && !stack0.contains(u) implies rank_c.contains_key(u)
                                    && rank_c[u] == rank[u] by {
                                    assert(u != node);
                                    assert(v_before.contains(u));
                                    assert(!stack0.insert(node).contains(u));
                                    assert(rank_before[u] == rank[u]);
                                }
                                assert forall|v: NodeId| #[trigger] visited@.contains(v) implies visited0.contains(v)
                                    || reachable(dependencies@, node, v) by {
                                    if !v_before.contains(v) {
                                        lemma_reach_step(dependencies@, node, dep, v);
                                    }
                                }
                                assert forall|j: int| 0 <= j < k implies visited@.contains(
                                    #[trigger] deps@[j],
                                ) && !stack@.contains(deps@[j]) && rank_c[deps@[j]] < next_c by {
                                    assert(v_before.contains(deps@[j]));
                                }
                            }
                        },
                    }
                } else if stack.contains(&dep) {
                    proof {
                        assert(path2.to_set().contains(dep));
                        let m = choose|m: int| 0 <= m < path2.len() && path2[m] == dep;
                        let w = path2.take(m + 1);
                        let c = path2.skip(m);
                        assert(is_walk(dependencies@, w)) by {
                            assert forall|i: int| 0 <= i < w.len() - 1 implies #[trigger] has_edge(
                                dependencies@,
                                w[i],
                                w[i + 1],
                            ) by {
                                assert(has_edge(dependencies@, path2[i], path2[i + 1]));
                            }
                        }
                        assert(is_walk(dependencies@, c)) by {
                            assert forall|i: int| 0 <= i < c.len() - 1 implies #[trigger] has_edge(
                                dependencies@,
                                c[i],
                                c[i + 1],
                            ) by {
                                assert(has_edge(dependencies@, path2[m + i], path2[m + i + 1]));
                            }
                        }
                        assert(c.last() == node);
                        assert(w[0] == path2[0]);
                        assert(roots.contains(w[0]));
                        assert(is_cycle(dependencies@, c));
                        assert(w.last() == c[0]);
                    }
                    return (Err(ExecutionContractError::CyclicDependency), Ghost((rank_c, next_c)));
                } else {
                    proof {
                        assert(rank_c[dep] < next_c);
                    }
                }
                k = k + 1;
            }
            proof {
                assert forall|v: NodeId| #[trigger] has_edge(dependencies@, node, v) implies visited@.contains(
                    v,
                ) && !stack@.contains(v) && rank_c[v] < next_c by {
                    let j = choose|j: int| 0 <= j < deps@.len() && deps@[j] == v;
                    assert(visited@.contains(deps@[j]));
                }
            }
        },
        None => {
            proof {
                assert forall|v: NodeId| !#[trigger] has_edge(dependencies@, node, v) by {
                    assert(deps_of(dependencies@, node) =~= Seq::<NodeId>::empty());
                }
            }
        },
    }
    let ghost visited_mid = visited@;
    stack.remove(&node);
    proof {
        assert(stack@ =~= stack0) by {
            assert(!stack0.contains(node)) by {
                assert(!old(visited)@.contains(node));
            }
        }
        let rank_final = rank_c.insert(node, next_c);
        let next_final = next_c + 1;
        assert forall|u: NodeId|
            #![trigger visited@.contains(u)]
            visited@.contains(u) && !stack@.contains(u) implies rank_final.contains_key(u)
            && rank_final[u] < next_final by {
            if u != node {
                assert(!(stack0.insert(node)).contains(u));
            }
        }
        assert forall|u: NodeId, v: NodeId|
            visited@.contains(u) && !stack@.contains(u) && #[trigger] has_edge(
                dependencies@,
                u,
                v,
            ) implies visited@.contains(v) && !stack@.contains(v) && rank_final[v] < rank_final[u] by {
            if u == node {
                assert(has_edge(dependencies@, node, v));
                assert(v != node);
            } else {
                assert(!(stack0.insert(node)).contains(u));
                assert(visited_mid.contains(v) && !(stack0.insert(node)).contains(v));
                assert(v != node);
            }
        }
        assert forall|u: NodeId|
            #![trigger old(visited)@.contains(u)]
            old(visited)@.contains(u) && !old(stack)@.contains(u) implies rank_final.contains_key(u)
            && rank_final[u] == rank[u] by {
            assert(u != node);
        }
        rank_c = rank_final;
        next_c = next_final;
        assert forall|v: NodeId| old(visited)@.contains(v) || reachable(dependencies@, node, v) implies #[trigger] visited@.contains(v) by {
            if reachable(dependencies@, node, v) {
                let w = choose|w: Seq<NodeId>| is_walk(dependencies@, w) && w[0] == node && w.last() == v;
                lemma_finished_walk(dependencies@, visited@, stack@, rank_c, next_c, w);
            }
        }
    }
    (Ok(()), Ghost((rank_c, next_c)))
}

/// Checks every node of `roots` and what it waits for; fails exactly when
/// a cycle can be reached from the roots.
fn check_acyclic(roots: &Vec<NodeId>, dependencies: &HashMap<NodeId, Vec<NodeId>>) -> (r: Result<
    (),
    ExecutionContractError,
>)
    ensures
        r is Ok ==> acyclic_from(dependencies@, roots@),
        r matches Err(e) ==> e is CyclicDependency && reaches_cycle(dependencies@, roots@),
{
    let mut visited: HashSet<NodeId> = HashSet::new();
    let mut stack: HashSet<NodeId> = HashSet::new();
    let ghost mut rank: Map<NodeId, nat> = Map::empty();
    let ghost mut next: nat = 0;
    let mut i: usize = 0;
    while i < roots.len()
        invariant
            i <= roots@.len(),
            dfs_inv(dependencies@, visited@, stack@, rank, next),
            stack@ == Set::<NodeId>::empty(),
            forall|j: int| 0 <= j < i ==> visited@.contains(#[trigger] roots@[j]),
        decreases roots@.len() - i,
    {
        let id = roots[i];
        if !visited.contains(&id) {
            proof {
                assert(stack@ =~= Seq::<NodeId>::empty().to_set());
                assert(roots@.contains(id)) by {
                    assert(roots@[i as int] == id);
                }
            }
            let ghost v_before = visited@;
            let (res, g) = check_one_root(
                id,
                dependencies,
                &mut visited,
                &mut stack,
                Ghost(roots@),
                Ghost(rank),
                Ghost(next),
            );
            match res {
                Err(e) => {
                    return Err(e);
                },
                Ok(()) => {
                    proof {
                        rank = g@.0;
                        next = g@.1;
                        assert forall|j: int| 0 <= j < i implies visited@.contains(
                            #[trigger] roots@[j],
                        ) by {
                            assert(v_before.contains(roots@[j]));
                        }
                    }
                },
            }
        }
        i = i + 1;
    }
    proof {
        let s = visited@;
        let rk = |x: NodeId| rank[x];
        assert(ranked_closed(dependencies@, roots@, s, rk));
    }
    Ok(())
}

fn check_one_root(
    id: NodeId,
    dependencies: &HashMap<NodeId, Vec<NodeId>>,
    visited: &mut HashSet<NodeId>,
    stack: &mut HashSet<NodeId>,
    Ghost(roots): Ghost<Seq<NodeId>>,
    Ghost(rank): Ghost<Map<NodeId, nat>>,
    Ghost(next): Ghost<nat>,
) -> (r: (Result<(), ExecutionContractError>, Ghost<(Map<NodeId, nat>, nat)>))
    requires
        dfs_inv(dependencies@, old(visited)@, old(stack)@, rank, next),
        !old(visited)@.contains(id),
        old(stack)@ == Set::<NodeId>::empty(),
        roots.contains(id),
    ensures
        match r.0 {
            Ok(()) => {
                let (rank2, next2) = r.1@;
                &&& dfs_inv(dependencies@, final(visited)@, final(stack)@, rank2, next2)
                &&& final(stack)@ == Set::<NodeId>::empty()
                &&& old(visited)@.subset_of(final(visited)@)
                &&& final(visited)@.contains(id)
            },
            Err(e) => e is CyclicDependency && reaches_cycle(dependencies@, roots),
        },
{
    proof {
        assert(old(stack)@ =~= Seq::<NodeId>::empty().to_set());
    }
    dfs_cycle_check(
        id,
        dependencies,
        visited,
        stack,
        Ghost(roots),
        Ghost(Seq::empty()),
        Ghost(rank),
        Ghost(next),
    )
}


// ---------------------------------------------------------------------------
// Artifacts
// ---------------------------------------------------------------------------

/// The position of each node in `ord`: the last place where it occurs.
pub open spec fn positions(ord: Seq<NodeId>) -> Map<NodeId, int>
    decreases ord.len(),
{
    if ord.len() == 0 {
        Map::empty()
    } else {
        positions(ord.drop_last()).insert(ord.last(), ord.len() - 1)
    }
}

/// `m` with each ref that `specs` produces and `m` lacks added at `pos`.
pub open spec fn add_produced(m: Map<Seq<char>, int>, specs: Seq<ArtifactSpec>, pos: int) -> Map<
    Seq<char>,
    int,
>
    decreases specs.len(),
{
    if specs.len() == 0 {
        m
    } else {
        let m2 = add_produced(m, specs.drop_last(), pos);
        if m2.contains_key(specs.last().ref_name@) {
            m2
        } else {
            m2.insert(specs.last().ref_name@, pos)
        }
    }
}

/// For each ref produced by a node of `ord`, the position of the first
/// such node.
pub open spec fn producers(
    nodes: Map<NodeId, ExecutionNode>,
    ord: Seq<NodeId>,
    pos: Map<NodeId, int>,
) -> Map<Seq<char>, int>
    decreases ord.len(),
{
    if ord.len() == 0 {
        Map::empty()
    } else {
        add_produced(
            producers(nodes, ord.drop_last(), pos),
            nodes[ord.last()].produces_artifacts@,
            pos[ord.last()],
        )
    }
}

/// What is wrong with a consumer at `consumer_pos` needing `r`.
pub open spec fn ref_fault(prods: Map<Seq<char>, int>, r: Seq<char>, consumer_pos: int) -> Option<
    ContractErrorView,
> {
    if !prods.contains_key(r) {
        Some(ContractErrorView::MissingArtifactProducer(r))
    } else if prods[r] >= consumer_pos {
        Some(ContractErrorView::ArtifactProducerAfterConsumer(r))
    } else {
        None
    }
}

/// The first fault among the refs `refs` of one consumer.
pub open spec fn refs_fault(prods: Map<Seq<char>, int>, refs: Seq<String>, consumer_pos: int) -> Option<
    ContractErrorView,
>
    decreases refs.len(),
{
    if refs.len() == 0 {
        None
    } else {
        match refs_fault(prods, refs.drop_last(), consumer_pos) {
            Some(e) => Some(e),
            None => ref_fault(prods, refs.last()@, consumer_pos),
        }
    }
}

/// The first fault among the consumers `ord`, in order.
pub open spec fn nodes_fault(
    nodes: Map<NodeId, ExecutionNode>,
    ord: Seq<NodeId>,
    prods: Map<Seq<char>, int>,
    pos: Map<NodeId, int>,
) -> Option<ContractErrorView>
    decreases ord.len(),
{
    if ord.len() == 0 {
        None
    } else {
        match nodes_fault(nodes, ord.drop_last(), prods, pos) {
            Some(e) => Some(e),
            None => refs_fault(prods, nodes[ord.last()].required_artifact_refs@, pos[ord.last()]),
        }
    }
}

impl ExecutionGraph {
    /// The first artifact that a node needs but no earlier node produces.
    pub open spec fn artifact_fault(&self) -> Option<ContractErrorView> {
        let pos = positions(self.ordering@);
        nodes_fault(self.nodes@, self.ordering@, producers(self.nodes@, self.ordering@, pos), pos)
    }
}

proof fn lemma_refs_fault_prefix(prods: Map<Seq<char>, int>, refs: Seq<String>, cpos: int, n: int)
    requires
        0 <= n <= refs.len(),
        refs_fault(prods, refs.take(n), cpos) is Some,
    ensures
        refs_fault(prods, refs, cpos) == refs_fault(prods, refs.take(n), cpos),
    decreases refs.len() - n,
{
    if n < refs.len() {
        assert(refs.take(n + 1).drop_last() =~= refs.take(n));
        lemma_refs_fault_prefix(prods, refs, cpos, n + 1);
    } else {
        assert(refs.take(n) =~= refs);
    }
}

proof fn lemma_nodes_fault_prefix(
    nodes: Map<NodeId, ExecutionNode>,
    ord: Seq<NodeId>,
    prods: Map<Seq<char>, int>,
    pos: Map<NodeId, int>,
    n: int,
)
    requires
        0 <= n <= ord.len(),
        nodes_fault(nodes, ord.take(n), prods, pos) is Some,
    ensures
        nodes_fault(nodes, ord, prods, pos) == nodes_fault(nodes, ord.take(n), prods, pos),
    decreases ord.len() - n,
{
    if n < ord.len() {
        assert(ord.take(n + 1).drop_last() =~= ord.take(n));
        lemma_nodes_fault_prefix(nodes, ord, prods, pos, n + 1);
    } else {
        assert(ord.take(n) =~= ord);
    }
}

/// `m` holds the same refs as `s`, at the same positions.
pub open spec fn same_positions(m: Map<Seq<char>, usize>, s: Map<Seq<char>, int>) -> bool {
    &&& forall|k: Seq<char>| m.contains_key(k) <==> s.contains_key(k)
    &&& forall|k: Seq<char>| #[trigger] m.contains_key(k) ==> m[k] as int == s[k]
}

proof fn lemma_positions_bound(ord: Seq<NodeId>, id: NodeId)
    ensures
        positions(ord).contains_key(id) ==> 0 <= positions(ord)[id] < ord.len(),
        ord.contains(id) ==> positions(ord).contains_key(id),
    decreases ord.len(),
{
    if ord.len() > 0 {
        lemma_positions_bound(ord.drop_last(), id);
        if ord.contains(id) && id != ord.last() {
            let i = choose|i: int| 0 <= i < ord.len() && ord[i] == id;
            assert(ord.drop_last()[i] == id);
        }
    }
}

impl<'ctx> Validate<'ctx> for ExecutionGraph {
    type Context = ContractContext;

    type Error = ExecutionContractError;

    /// The ordering names only nodes of the graph, whenever the check gets
    /// past its first two steps.
    open spec fn validate_requires(&self, ctx: &ContractContext) -> bool {
        self.ordering@.len() > 0 && acyclic_from(self.dependencies@, self.ordering@)
            ==> self.ordering_known()
    }

    /// The graph has nodes, no cycle can be reached from its ordering, and
    /// each artifact that a node needs is first produced by a node that
    /// comes before it in the ordering.
    fn validate(&self, ctx: &'ctx ContractContext) -> (r: Result<(), ExecutionContractError>)
        ensures
            self.ordering@.len() == 0 ==> (r matches Err(e) && e is EmptyGraph),
            self.ordering@.len() > 0 ==> ((r matches Err(e) && e is CyclicDependency) <==> !acyclic_from(
                self.dependencies@,
                self.ordering@,
            )),
            self.ordering@.len() > 0 && acyclic_from(self.dependencies@, self.ordering@) ==> match r {
                Ok(()) => self.artifact_fault() is None,
                Err(e) => self.artifact_fault() == Some(e@),
            },
    {
        if self.ordering.len() == 0 {
            return Err(ExecutionContractError::EmptyGraph);
        }
        match check_acyclic(&self.ordering, &self.dependencies) {
            Err(e) => {
                proof {
                    if acyclic_from(self.dependencies@, self.ordering@) {
                        lemma_acyclic_from_reaches_no_cycle(self.dependencies@, self.ordering@);
                    }
                }
                return Err(e);
            },
            Ok(()) => {},
        }
        let ghost ord = self.ordering@;
        let ghost nodes = self.nodes@;
        let len = self.ordering.len();
        let mut order_pos: HashMap<NodeId, usize> = HashMap::new();
        let mut i: usize = 0;
        while i < len
            invariant
                len == ord.len(),
                i <= len,
                forall|k: NodeId| order_pos@.contains_key(k) <==> positions(ord.take(i as int)).contains_key(k),
                forall|k: NodeId| #[trigger]
                    order_pos@.contains_key(k) ==> order_pos@[k] as int == positions(ord.take(i as int))[k],
            decreases len - i,
        {
            order_pos.insert(self.ordering[i], i);
            proof {
                assert(ord.take(i + 1).drop_last() =~= ord.take(i as int));
            }
            i = i + 1;
        }
        proof {
            assert(ord.take(len as int) =~= ord);
        }
        let ghost pos = positions(ord);
        let mut prods: StrMap<usize> = StrMap::new();
        i = 0;
        while i < len
            invariant
                len == ord.len(),
                i <= len,
                prods.wf(),
                same_positions(prods@, producers(nodes, ord.take(i as int), pos)),
            decreases len - i,
        {
            let id = self.ordering[i];
            proof {
                assert(ord.contains(id)) by {
                    assert(ord[i as int] == id);
                }
                lemma_positions_bound(ord, id);
            }
            let node = self.nodes.get(&id).unwrap();
            let p = *order_pos.get(&id).unwrap();
            let ghost specs = node.produces_artifacts@;
            let ghost base = producers(nodes, ord.take(i as int), pos);
            let mut k: usize = 0;
            proof {
                assert(specs.take(0) =~= Seq::<ArtifactSpec>::empty());
            }
            while k < node.produces_artifacts.len()
                invariant
                    k <= specs.len(),
                    specs == node.produces_artifacts@,
                    prods.wf(),
                    p as int == pos[id],
                    same_positions(prods@, add_produced(base, specs.take(k as int), pos[id])),
                decreases specs.len() - k,
            {
                let spec = &node.produces_artifacts[k];
                let ghost before = add_produced(base, specs.take(k as int), pos[id]);
                if !prods.contains_key(spec.ref_name.as_str()) {
                    prods.insert(spec.ref_name.clone(), p);
                }
                proof {
                    assert(specs.take(k + 1).drop_last() =~= specs.take(k as int));
                    assert(specs.take(k + 1).last() == *spec);
                    let after = add_produced(base, specs.take(k + 1), pos[id]);
                    assert(forall|key: Seq<char>| prods@.contains_key(key) <==> after.contains_key(key));
                }
                k = k + 1;
            }
            proof {
                assert(specs.take(specs.len() as int) =~= specs);
                assert(ord.take(i + 1).drop_last() =~= ord.take(i as int));
                assert(ord.take(i + 1).last() == id);
            }
            i = i + 1;
        }
        proof {
            assert(ord.take(len as int) =~= ord);
        }
        let ghost prod_all = producers(nodes, ord, pos);
        i = 0;
        while i < len
            invariant
                len == ord.len(),
                i <= len,
                prods.wf(),
                same_positions(prods@, prod_all),
                nodes_fault(nodes, ord.take(i as int), prod_all, pos) is None,
            decreases len - i,
        {
            let id = self.ordering[i];
            proof {
                assert(ord.contains(id)) by {
                    assert(ord[i as int] == id);
                }
                lemma_positions_bound(ord, id);
            }
            let node = self.nodes.get(&id).unwrap();
            let cpos = *order_pos.get(&id).unwrap();
            let ghost refs = node.required_artifact_refs@;
            let mut k: usize = 0;
            proof {
                assert(refs.take(0) =~= Seq::<String>::empty());
            }
            while k < node.required_artifact_refs.len()
                invariant
                    k <= refs.len(),
                    refs == node.required_artifact_refs@,
                    cpos as int == pos[id],
                    refs_fault(prod_all, refs.take(k as int), pos[id]) is None,
                decreases refs.len() - k,
            {
                let r = &node.required_artifact_refs[k];
                let ghost fault = ref_fault(prod_all, r@, pos[id]);
                let mut err: Option<ExecutionContractError> = None;
                match prods.get(r.as_str()) {
                    None => {
                        err = Some(ExecutionContractError::MissingArtifactProducer(r.clone()));
                    },
                    Some(producer_pos) => {
                        if *producer_pos >= cpos {
                            err = Some(ExecutionContractError::ArtifactProducerAfterConsumer(r.clone()));
                        }
                    },
                }
                proof {
                    assert(refs.take(k + 1).drop_last() =~= refs.take(k as int));
                    assert(refs.take(k + 1).last() == *r);
                }
                match err {
                    Some(e) => {
                        proof {
                            assert(fault == Some(e@));
                            lemma_refs_fault_prefix(prod_all, refs, pos[id], k + 1);
                            assert(ord.take(i + 1).drop_last() =~= ord.take(i as int));
                            assert(ord.take(i + 1).last() == id);
                            lemma_nodes_fault_prefix(nodes, ord, prod_all, pos, i + 1);
                        }
                        return Err(e);
                    },
                    None => {},
                }
                k = k + 1;
            }
            proof {
                assert(refs.take(refs.len() as int) =~= refs);
                assert(ord.take(i + 1).drop_last() =~= ord.take(i as int));
                assert(ord.take(i + 1).last() == id);
            }
            i = i + 1;
        }
        proof {
            assert(ord.take(len as int) =~= ord);
        }
        Ok(())
    }
}

} // verus!
