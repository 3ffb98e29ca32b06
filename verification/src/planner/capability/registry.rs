//! The tools of a session, by name and by capability.
use vstd::prelude::*;

use super::classifier::strs_view;
use super::kind::{CapabilityKind, ToolCapability};
use crate::artifact::types::{kind_named, ArtifactKind, ArtifactSpec};
use crate::bridge::tools::{describes_tool, normalize_spec, ToolEntry};
use crate::json::JsonValue;
use crate::planner::execution::steps::{
    produces_view, step_planned, strings_view, ExecutionStep, HintView, PlannedStep,
};
use crate::planner::traits::HasCapability;
use crate::strmap::{entries_map, keys_unique, lemma_entries_map_dom, StrMap};
use crate::text::owned;

verus! {

/// The names of the entries whose capability is of kind `k`, in order.
pub open spec fn names_with_kind(es: Seq<(String, ToolCapability)>, k: CapabilityKind) -> Seq<
    Seq<char>,
>
    decreases es.len(),
{
    if es.len() == 0 {
        seq![]
    } else if es.last().1.kind == k {
        names_with_kind(es.drop_last(), k).push(es.last().0@)
    } else {
        names_with_kind(es.drop_last(), k)
    }
}

/// The tools of a session, by name and by capability.
pub struct CapabilityRegistry {
    pub by_name: StrMap<ToolCapability>,
    pub by_kind: Vec<(CapabilityKind, Vec<String>)>,
}

impl CapabilityRegistry {
    /// Each kind has at most one list.
    pub open spec fn wf(&self) -> bool {
        &&& self.by_name.wf()
        &&& forall|i: int, j: int|
            0 <= i < self.by_kind@.len() && 0 <= j < self.by_kind@.len() && i != j
                ==> self.by_kind@[i].0 != self.by_kind@[j].0
    }

    /// The names of the tools of capability `k`, if any tool has it.
    pub open spec fn kind_names(&self, k: CapabilityKind) -> Option<Seq<Seq<char>>> {
        if exists|i: int| 0 <= i < self.by_kind@.len() && self.by_kind@[i].0 == k {
            let i = choose|i: int| 0 <= i < self.by_kind@.len() && self.by_kind@[i].0 == k;
            Some(strings_view(self.by_kind@[i].1))
        } else {
            None
        }
    }

    /// The registry of the named capabilities `entries`: by name, a later
    /// entry overrides an earlier one; by kind, every entry counts, in order.
    pub fn build(entries: Vec<(String, ToolCapability)>) -> (r: Self)
        ensures
            r.wf(),
            r.by_name@ == entries_map(entries@),
            forall|k: CapabilityKind| #[trigger]
                r.kind_names(k) == (if names_with_kind(entries@, k).len() > 0 {
                    Some(names_with_kind(entries@, k))
                } else {
                    None
                }),
    {
        let mut by_name: StrMap<ToolCapability> = StrMap::new();
        let mut by_kind: Vec<(CapabilityKind, Vec<String>)> = Vec::new();
        let mut i: usize = 0;
        proof {
            assert(entries@.take(0) =~= Seq::<(String, ToolCapability)>::empty());
            crate::strmap::StrMap::<ToolCapability>::lemma_view(&by_name);
        }
        while i < entries.len()
            invariant
                i <= entries@.len(),
                by_name.wf(),
                by_name@ == entries_map(entries@.take(i as int)),
                forall|a: int, b: int|
                    0 <= a < by_kind@.len() && 0 <= b < by_kind@.len() && a != b ==> by_kind@[a].0
                        != by_kind@[b].0,
                forall|a: int|
                    0 <= a < by_kind@.len() ==> strings_view(#[trigger] by_kind@[a].1)
                        == names_with_kind(entries@.take(i as int), by_kind@[a].0),
                forall|a: int| 0 <= a < by_kind@.len() ==> (#[trigger] by_kind@[a]).1@.len() > 0,
                forall|k: CapabilityKind|
                    (forall|a: int| 0 <= a < by_kind@.len() ==> by_kind@[a].0 != k)
                        ==> #[trigger] names_with_kind(entries@.take(i as int), k).len() == 0,
            decreases entries@.len() - i,
        {
            let name = &entries[i].0;
            let cap = entries[i].1;
            let ghost pre = entries@.take(i as int);
            let ghost post = entries@.take(i + 1);
            proof {
                assert(post.drop_last() =~= pre);
                assert(post.last() == entries@[i as int]);
            }
            let mut pos: usize = 0;
            while pos < by_kind.len() && by_kind[pos].0 != cap.kind
                invariant
                    pos <= by_kind@.len(),
                    forall|a: int| 0 <= a < pos ==> by_kind@[a].0 != cap.kind,
                decreases by_kind@.len() - pos,
            {
                pos = pos + 1;
            }
            let ghost bk = by_kind@;
            if pos < by_kind.len() {
                let (k, mut names) = by_kind.remove(pos);
                let ghost old_names = names@;
                names.push(name.clone());
                proof {
                    assert(strings_view(names) =~= strings_view_seq(old_names).push(name@));
                }
                by_kind.insert(pos, (k, names));
                proof {
                    assert forall|a: int| 0 <= a < by_kind@.len() implies strings_view(
                        #[trigger] by_kind@[a].1,
                    ) == names_with_kind(post, by_kind@[a].0) by {
                        if a != pos {
                            assert(by_kind@[a] == bk[a]);
                        }
                    }
                    assert forall|a: int, b: int|
                        0 <= a < by_kind@.len() && 0 <= b < by_kind@.len() && a != b implies by_kind@[a].0
                        != by_kind@[b].0 by {
                        assert(by_kind@[a].0 == bk[a].0);
                        assert(by_kind@[b].0 == bk[b].0);
                    }
                    assert forall|k: CapabilityKind|
                        (forall|a: int| 0 <= a < by_kind@.len() ==> by_kind@[a].0 != k) implies #[trigger] names_with_kind(
                        post,
                        k,
                    ).len() == 0 by {
                        assert forall|a: int| 0 <= a < bk.len() implies bk[a].0 != k by {
                            assert(by_kind@[a].0 == bk[a].0);
                        }
                        assert(by_kind@[pos as int].0 == cap.kind);
                        assert(names_with_kind(post, k) == names_with_kind(pre, k));
                    }
                    assert forall|a: int| 0 <= a < by_kind@.len() implies (#[trigger] by_kind@[a]).1@.len() > 0 by {
                        if a != pos {
                            assert(by_kind@[a] == bk[a]);
                        }
                    }
                }
            } else {
                let mut names: Vec<String> = Vec::new();
                names.push(name.clone());
                proof {
                    assert(names_with_kind(pre, cap.kind).len() == 0);
                    assert(strings_view(names) =~= names_with_kind(post, cap.kind));
                }
                by_kind.push((cap.kind, names));
                proof {
                    assert forall|a: int| 0 <= a < by_kind@.len() implies strings_view(
                        #[trigger] by_kind@[a].1,
                    ) == names_with_kind(post, by_kind@[a].0) by {
                        if a < bk.len() {
                            assert(by_kind@[a] == bk[a]);
                        }
                    }
                    assert forall|k: CapabilityKind|
                        (forall|a: int| 0 <= a < by_kind@.len() ==> by_kind@[a].0 != k) implies #[trigger] names_with_kind(
                        post,
                        k,
                    ).len() == 0 by {
                        assert forall|a: int| 0 <= a < bk.len() implies bk[a].0 != k by {
                            assert(by_kind@[a] == bk[a]);
                        }
                        assert(by_kind@[bk.len() as int].0 == cap.kind);
                        assert(names_with_kind(post, k) == names_with_kind(pre, k));
                    }
                    assert forall|a: int| 0 <= a < by_kind@.len() implies (#[trigger] by_kind@[a]).1@.len() > 0 by {
                        if a < bk.len() {
                            assert(by_kind@[a] == bk[a]);
                        }
                    }
                }
            }
            by_name.insert(name.clone(), cap);
            proof {
                assert(by_name@ == entries_map(post));
            }
            i = i + 1;
        }
        proof {
            assert(entries@.take(entries@.len() as int) =~= entries@);
        }
        let r = CapabilityRegistry { by_name, by_kind };
        proof {
            assert forall|k: CapabilityKind| #[trigger]
                r.kind_names(k) == (if names_with_kind(entries@, k).len() > 0 {
                    Some(names_with_kind(entries@, k))
                } else {
                    None
                }) by {
                let all = entries@.take(entries@.len() as int);
                if exists|a: int| 0 <= a < r.by_kind@.len() && r.by_kind@[a].0 == k {
                    let a = choose|a: int| 0 <= a < r.by_kind@.len() && r.by_kind@[a].0 == k;
                    assert(r.by_kind@[a].1@.len() > 0);
                    assert(strings_view(r.by_kind@[a].1) == names_with_kind(all, k));
                    assert(names_with_kind(entries@, k).len() > 0);
                } else {
                    assert forall|a: int| 0 <= a < by_kind@.len() implies by_kind@[a].0 != k by {
                        assert(r.by_kind@[a] == by_kind@[a]);
                    }
                    assert(names_with_kind(entries@.take(i as int), k).len() == 0);
                }
            }
        }
        r
    }
}

pub open spec fn strings_view_seq(s: Seq<String>) -> Seq<Seq<char>> {
    s.map_values(|x: String| x@)
}

/// Some tool among `tools` answers to the name that `name` designates.
pub open spec fn tool_offered(name: Seq<char>, tools: Seq<JsonValue>) -> bool {
    exists|i: int| 0 <= i < tools.len() && describes_tool(tools[i], normalize_spec(name))
}

/// The artifacts that a step of the tool `name` needs, by its capability.
pub open spec fn fallback_requires(by_name: Map<Seq<char>, ToolCapability>, name: Seq<char>) -> Seq<
    Seq<char>,
> {
    if by_name.contains_key(name) {
        strs_view(by_name[name].requires)
    } else {
        seq![]
    }
}

/// The artifact that a step of the tool `name` produces: the first that its
/// capability lists, of the kind that its name says.
pub open spec fn fallback_produces(by_name: Map<Seq<char>, ToolCapability>, name: Seq<char>) -> Option<
    (Seq<char>, ArtifactKind),
> {
    if by_name.contains_key(name) && by_name[name].produces@.len() > 0 {
        let p = by_name[name].produces@[0]@;
        Some((p, kind_named(p)))
    } else {
        None
    }
}

/// `names[j]` is the first of `names` that some tool answers to.
pub open spec fn first_offered(names: Seq<Seq<char>>, tools: Seq<JsonValue>, j: int) -> bool {
    &&& 0 <= j < names.len()
    &&& tool_offered(names[j], tools)
    &&& forall|l: int| 0 <= l < j ==> !tool_offered(names[l], tools)
}

/// `r` is the step `p`, or both are absent.
pub open spec fn opt_step_planned(r: Option<ExecutionStep>, p: Option<PlannedStep>) -> bool {
    match (r, p) {
        (Some(s), Some(v)) => step_planned(s, v),
        (None, None) => true,
        _ => false,
    }
}

impl CapabilityRegistry {
    /// What `fallback` gives for a need of capability `kind`: the step of
    /// the first tool of that capability that `tools` offers.
    pub open spec fn fallback_outcome(
        &self,
        kind: CapabilityKind,
        tools: Seq<JsonValue>,
        r: Option<ExecutionStep>,
    ) -> bool {
        match self.kind_names(kind) {
            None => r is None,
            Some(names) => match r {
                None => forall|j: int| 0 <= j < names.len() ==> !tool_offered(names[j], tools),
                Some(step) => exists|j: int|
                    first_offered(names, tools, j) && step.tool_name@ == names[j]
                        && step.args_hint is None && strings_view(step.requires_artifact)
                        == fallback_requires(self.by_name@, names[j]) && produces_view(
                        step.produces_artifact,
                    ) == fallback_produces(self.by_name@, names[j]),
            },
        }
    }

    /// The step that `fallback` gives, as a planned step.
    pub open spec fn fallback_choice(&self, kind: CapabilityKind, tools: Seq<JsonValue>) -> Option<
        PlannedStep,
    > {
        match self.kind_names(kind) {
            None => None,
            Some(names) => if exists|j: int| first_offered(names, tools, j) {
                let j = choose|j: int| first_offered(names, tools, j);
                Some(
                    PlannedStep {
                        name: names[j],
                        hint: HintView::NoHint,
                        requires: fallback_requires(self.by_name@, names[j]),
                        produces: fallback_produces(self.by_name@, names[j]),
                    },
                )
            } else {
                None
            },
        }
    }

    /// The step that stands in for `item` when no dedicated tool does: the
    /// first tool of the capability that `item` needs which `tools` offers.
    pub fn fallback<T: HasCapability>(&self, item: &T, tools: &[JsonValue]) -> (r: Option<
        ExecutionStep,
    >)
        requires
            self.wf(),
        ensures
            self.fallback_outcome(item.capability_spec(), tools@, r),
            opt_step_planned(r, self.fallback_choice(item.capability_spec(), tools@)),
    {
        let kind = item.capability();
        let mut pos: usize = 0;
        while pos < self.by_kind.len() && self.by_kind[pos].0 != kind
            invariant
                pos <= self.by_kind@.len(),
                forall|a: int| 0 <= a < pos ==> self.by_kind@[a].0 != kind,
            decreases self.by_kind@.len() - pos,
        {
            pos = pos + 1;
        }
        if pos == self.by_kind.len() {
            return None;
        }
        let names = &self.by_kind[pos].1;
        let ghost gnames = strings_view(*names);
        proof {
            assert(self.kind_names(kind) == Some(gnames));
        }
        let mut j: usize = 0;
        while j < names.len()
            invariant
                j <= names@.len(),
                gnames == strings_view(*names),
                forall|l: int| 0 <= l < j ==> !tool_offered(gnames[l], tools@),
            decreases names@.len() - j,
        {
            let name = &names[j];
            match ToolEntry::find_in_tools(name.as_str(), tools) {
                Some(_) => {
                    let cap = self.by_name.get(name.as_str());
                    let mut requires_artifact: Vec<String> = Vec::new();
                    let mut produces_artifact: Option<ArtifactSpec> = None;
                    match cap {
                        Some(c) => {
                            let mut q: usize = 0;
                            while q < c.requires.len()
                                invariant
                                    q <= c.requires@.len(),
                                    strings_view(requires_artifact) == strs_view(c.requires).take(
                                        q as int,
                                    ),
                                decreases c.requires@.len() - q,
                            {
                                let ghost before = requires_artifact@;
                                requires_artifact.push(owned(c.requires[q]));
                                proof {
                                    assert(strings_view(requires_artifact) =~= strs_view(
                                        c.requires,
                                    ).take(q + 1));
                                }
                                q = q + 1;
                            }
                            proof {
                                assert(strs_view(c.requires).take(c.requires@.len() as int)
                                    =~= strs_view(c.requires));
                            }
                            if c.produces.len() > 0 {
                                let p = c.produces[0];
                                produces_artifact = Some(
                                    ArtifactSpec {
                                        ref_name: owned(p),
                                        kind: ArtifactKind::parse_or_output(p),
                                    },
                                );
                            }
                        },
                        None => {
                            proof {
                                assert(strings_view(requires_artifact) =~= seq![]);
                            }
                        },
                    }
                    let step = ExecutionStep {
                        tool_name: name.clone(),
                        args_hint: None,
                        requires_artifact,
                        produces_artifact,
                    };
                    proof {
                        assert(first_offered(gnames, tools@, j as int));
                        let c = choose|c: int| first_offered(gnames, tools@, c);
                        if c < j {
                            assert(!tool_offered(gnames[c], tools@));
                        }
                        if c > j {
                            assert(!tool_offered(gnames[j as int], tools@));
                        }
                        assert(c == j);
                    }
                    return Some(step);
                },
                None => {
                    proof {
                        assert(!tool_offered(gnames[j as int], tools@));
                    }
                },
            }
            j = j + 1;
        }
        None
    }
}

proof fn lemma_names_with_kind_iff(es: Seq<(String, ToolCapability)>, k: CapabilityKind, n: Seq<char>)
    requires
        keys_unique(es),
    ensures
        names_with_kind(es, k).contains(n) <==> (entries_map(es).contains_key(n) && entries_map(
            es,
        )[n].kind == k),
    decreases es.len(),
{
    if es.len() > 0 {
        let p = es.drop_last();
        let e = es.last();
        assert(keys_unique(p));
        lemma_names_with_kind_iff(p, k, n);
        lemma_entries_map_dom(p, e.0@);
        if entries_map(p).contains_key(e.0@) {
            let i = choose|i: int| 0 <= i < p.len() && p[i].0@ == e.0@;
            assert(es[i].0@ == es[es.len() - 1].0@);
        }
        let q = names_with_kind(p, k);
        if e.1.kind == k {
            assert(names_with_kind(es, k) == q.push(e.0@));
            if q.push(e.0@).contains(n) && n != e.0@ {
                let j = choose|j: int| 0 <= j < q.push(e.0@).len() && q.push(e.0@)[j] == n;
                assert(q[j] == n);
            }
            if n == e.0@ {
                assert(q.push(e.0@)[q.len() as int] == n);
            } else if q.contains(n) {
                let j = choose|j: int| 0 <= j < q.len() && q[j] == n;
                assert(q.push(e.0@)[j] == n);
            }
        }
    }
}

/// When no name is given twice, a tool is listed under a capability kind
/// exactly when the capability registered under its name is of that kind.
pub proof fn lemma_listed_under_kind_iff(
    entries: Seq<(String, ToolCapability)>,
    r: CapabilityRegistry,
    k: CapabilityKind,
    n: Seq<char>,
)
    requires
        keys_unique(entries),
        r.by_name@ == entries_map(entries),
        forall|k2: CapabilityKind| #[trigger]
            r.kind_names(k2) == (if names_with_kind(entries, k2).len() > 0 {
                Some(names_with_kind(entries, k2))
            } else {
                None
            }),
    ensures
        (r.kind_names(k) matches Some(ns) && ns.contains(n)) <==> (r.by_name@.contains_key(n)
            && r.by_name@[n].kind == k),
{
    lemma_names_with_kind_iff(entries, k, n);
    assert(r.kind_names(k) == (if names_with_kind(entries, k).len() > 0 {
        Some(names_with_kind(entries, k))
    } else {
        None
    }));
    if names_with_kind(entries, k).contains(n) {
        assert(names_with_kind(entries, k).len() > 0);
    }
}

} // verus!
