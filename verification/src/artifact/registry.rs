//! Artifacts that execution nodes produce, bound to the graph names under
//! which later nodes look them up.
use vstd::prelude::*;

use super::types::{
    opt_string_view, Artifact, ArtifactKind, ArtifactMetadata, ArtifactView, MetadataView,
};
use crate::bridge::tools::{all_tool_kinds, tool_kinds, tool_table, ToolEntry, ToolKind};
use crate::json::JsonValue;
use crate::planner::NodeId;
use crate::strmap::StrMap;
use super::types::kind_named;
use crate::text::{decimal, push_str, str_eq, usize_to_decimal};

verus! {

/// The registry as values: the artifacts by id, and for each graph name the
/// ids bound to it, oldest first.
pub struct RegistryView {
    pub artifacts: Map<Seq<char>, ArtifactView>,
    pub bindings: Map<Seq<char>, Seq<Seq<char>>>,
}

/// The id of version `version` of the artifact `name` of kind `kind`:
/// `artifact:{kind}:{name}:v{version}`.
pub open spec fn artifact_id(kind: ArtifactKind, name: Seq<char>, version: nat) -> Seq<char> {
    "artifact:"@ + kind.ref_name_spec() + ":"@ + name + ":v"@ + decimal(version)
}

/// The last of `ids` whose artifact was read from or written to `path`.
pub open spec fn last_with_path(
    ids: Seq<Seq<char>>,
    artifacts: Map<Seq<char>, ArtifactView>,
    path: Seq<char>,
) -> Option<Seq<char>>
    decreases ids.len(),
{
    if ids.len() == 0 {
        None
    } else if artifacts.contains_key(ids.last()) && artifacts[ids.last()].metadata.file_path
        == Some(path) {
        Some(ids.last())
    } else {
        last_with_path(ids.drop_last(), artifacts, path)
    }
}

impl RegistryView {
    /// The ids bound to `ref_name`, oldest first.
    pub open spec fn versions(self, ref_name: Seq<char>) -> Seq<Seq<char>> {
        if self.bindings.contains_key(ref_name) {
            self.bindings[ref_name]
        } else {
            Seq::empty()
        }
    }

    /// The registry after a new version of an artifact is produced under
    /// `ref_name`.
    pub open spec fn emit(
        self,
        ref_name: Seq<char>,
        kind: ArtifactKind,
        name: Seq<char>,
        content: Seq<char>,
        metadata: MetadataView,
    ) -> RegistryView {
        let id = artifact_id(kind, name, self.versions(ref_name).len() + 1);
        RegistryView {
            artifacts: self.artifacts.insert(
                id,
                ArtifactView { id, kind, name, content, metadata },
            ),
            bindings: self.bindings.insert(ref_name, self.versions(ref_name).push(id)),
        }
    }

    /// The artifact that `rebind` binds anew, if any.
    pub open spec fn rebind_target(self, ref_name: Seq<char>, file_path: Seq<char>) -> Option<
        Seq<char>,
    > {
        last_with_path(self.versions(ref_name), self.artifacts, file_path)
    }

    /// The registry after the last artifact under `ref_name` that belongs to
    /// `file_path` is moved to `workflow_id` and bound once more.
    pub open spec fn rebind(self, ref_name: Seq<char>, file_path: Seq<char>, workflow_id: Seq<char>) -> RegistryView {
        match self.rebind_target(ref_name, file_path) {
            Some(id) => RegistryView {
                artifacts: self.artifacts.insert(
                    id,
                    ArtifactView {
                        metadata: MetadataView { workflow_id, ..self.artifacts[id].metadata },
                        ..self.artifacts[id]
                    },
                ),
                bindings: self.bindings.insert(ref_name, self.versions(ref_name).push(id)),
            },
            None => self,
        }
    }

    /// The newest artifact bound to `ref_name`, if it belongs to `workflow_id`.
    pub open spec fn resolve(self, workflow_id: Seq<char>, ref_name: Seq<char>) -> Option<
        ArtifactView,
    > {
        let ids = self.versions(ref_name);
        if ids.len() > 0 && self.artifacts.contains_key(ids.last())
            && self.artifacts[ids.last()].metadata.workflow_id == workflow_id {
            Some(self.artifacts[ids.last()])
        } else {
            None
        }
    }

    /// The registry with nothing in it.
    pub open spec fn empty() -> RegistryView {
        RegistryView { artifacts: Map::empty(), bindings: Map::empty() }
    }
}

/// Produced artifacts, and the graph names bound to them.
pub struct ArtifactRegistry {
    artifacts: StrMap<Artifact>,
    ref_bindings: StrMap<Vec<String>>,
}

pub open spec fn ids_view(v: Vec<String>) -> Seq<Seq<char>> {
    v@.map_values(|s: String| s@)
}

impl View for ArtifactRegistry {
    type V = RegistryView;

    closed spec fn view(&self) -> RegistryView {
        RegistryView {
            artifacts: self.artifacts@.map_values(|a: Artifact| a@),
            bindings: self.ref_bindings@.map_values(|v: Vec<String>| ids_view(v)),
        }
    }
}

impl Default for ArtifactRegistry {
    fn default() -> (r: Self)
        ensures
            r.wf(),
            r@ == RegistryView::empty(),
    {
        let r = ArtifactRegistry { artifacts: StrMap::new(), ref_bindings: StrMap::new() };
        proof {
            assert(r@.artifacts =~= Map::empty());
            assert(r@.bindings =~= Map::empty());
        }
        r
    }
}

fn make_id(kind: ArtifactKind, name: &str, version: usize) -> (id: String)
    ensures
        id@ == artifact_id(kind, name@, version as nat),
{
    let mut id = String::new();
    push_str(&mut id, "artifact:");
    push_str(&mut id, kind.as_ref_name());
    push_str(&mut id, ":");
    push_str(&mut id, name);
    push_str(&mut id, ":v");
    let digits = usize_to_decimal(version);
    push_str(&mut id, digits.as_str());
    id
}

impl ArtifactRegistry {
    /// The two maps are well formed.
    pub closed spec fn wf(&self) -> bool {
        self.artifacts.wf() && self.ref_bindings.wf()
    }

    /// Binds `ids` to `ref_name`, after it has been taken out of the bindings.
    fn put_binding(&mut self, ref_name: String, ids: Vec<String>)
        requires
            old(self).wf(),
            !old(self)@.bindings.contains_key(ref_name@),
        ensures
            final(self).wf(),
            final(self)@ == (RegistryView {
                bindings: old(self)@.bindings.insert(ref_name@, ids_view(ids)),
                ..old(self)@
            }),
    {
        let ghost before = self.ref_bindings@;
        self.ref_bindings.insert(ref_name, ids);
        proof {
            assert(self@.bindings =~= old(self)@.bindings.insert(ref_name@, ids_view(ids)));
            assert(self@.artifacts =~= old(self)@.artifacts);
        }
    }

    /// Takes the ids bound to `ref_name` out of the bindings.
    fn take_binding(&mut self, ref_name: &str) -> (ids: Vec<String>)
        requires
            old(self).wf(),
        ensures
            final(self).wf(),
            ids_view(ids) == old(self)@.versions(ref_name@),
            final(self)@ == (RegistryView {
                bindings: old(self)@.bindings.remove(ref_name@),
                ..old(self)@
            }),
    {
        match self.ref_bindings.index_of(ref_name) {
            Some(i) => {
                let (_, ids) = self.ref_bindings.remove_at(i);
                proof {
                    assert(self@.bindings =~= old(self)@.bindings.remove(ref_name@));
                    assert(self@.artifacts =~= old(self)@.artifacts);
                }
                ids
            },
            None => {
                let v: Vec<String> = Vec::new();
                proof {
                    assert(self@.bindings =~= old(self)@.bindings.remove(ref_name@));
                    assert(ids_view(v) =~= Seq::empty());
                }
                v
            },
        }
    }

    /// Records a new version of an artifact under `ref_name`; its id is
    /// `artifact:{kind}:{name}:v{n}`, where `n` counts the ids bound to
    /// `ref_name` so far, this one included.
    pub fn emit(
        &mut self,
        ref_name: String,
        kind: ArtifactKind,
        name: String,
        content: String,
        metadata: ArtifactMetadata,
    )
        requires
            old(self).wf(),
            old(self)@.versions(ref_name@).len() < usize::MAX,
        ensures
            final(self).wf(),
            final(self)@ == old(self)@.emit(ref_name@, kind, name@, content@, metadata@),
    {
        let ghost start = self@;
        let mut versions = self.take_binding(ref_name.as_str());
        let version = versions.len() + 1;
        let id = make_id(kind, name.as_str(), version);
        versions.push(id.clone());
        let ghost new_ids = ids_view(versions);
        proof {
            assert(new_ids =~= start.versions(ref_name@).push(id@));
        }
        self.put_binding(ref_name, versions);
        let ghost mid = self@;
        let key = id.clone();
        let artifact = Artifact { id, kind, name, content, metadata };
        self.artifacts.insert(key, artifact);
        proof {
            assert(self@.artifacts =~= mid.artifacts.insert(artifact@.id, artifact@));
            assert(self@.bindings =~= mid.bindings);
            let expect = start.emit(ref_name@, kind, name@, content@, metadata@);
            assert(self@.artifacts =~= expect.artifacts);
            assert(mid.bindings =~= expect.bindings);
        }
    }

    /// Removes every artifact and every binding.
    pub fn clear(&mut self)
        ensures
            final(self).wf(),
            final(self)@ == RegistryView::empty(),
    {
        self.artifacts.clear();
        self.ref_bindings.clear();
        proof {
            assert(self@.artifacts =~= Map::empty());
            assert(self@.bindings =~= Map::empty());
        }
    }

    /// How many ids are bound to `ref_name`.
    pub fn ref_bindings_len(&self, ref_name: &str) -> (n: usize)
        requires
            self.wf(),
        ensures
            n == self@.versions(ref_name@).len(),
    {
        match self.ref_bindings.get(ref_name) {
            Some(v) => v.len(),
            None => 0,
        }
    }

    /// Looks for the newest artifact under `ref_name` that belongs to
    /// `file_path`; if there is one, moves it to `workflow_id`, binds it to
    /// `ref_name` once more and answers `true`.
    pub fn rebind(&mut self, ref_name: &str, file_path: &str, workflow_id: &str) -> (found: bool)
        requires
            old(self).wf(),
        ensures
            final(self).wf(),
            found == old(self)@.rebind_target(ref_name@, file_path@) is Some,
            final(self)@ == old(self)@.rebind(ref_name@, file_path@, workflow_id@),
    {
        let ghost start = self@;
        let bi = self.ref_bindings.index_of(ref_name);
        let i = match bi {
            Some(i) => i,
            None => {
                return false;
            },
        };
        let ghost ids_all = start.versions(ref_name@);
        let mut found: Option<usize> = None;
        {
            let ids = &self.ref_bindings.entries()[i].1;
            let mut j = ids.len();
            proof {
                assert(ids_all.take(j as int) =~= ids_all);
            }
            while j > 0
                invariant
                    j <= ids@.len(),
                    ids_view(*ids) == ids_all,
                    last_with_path(ids_all, start.artifacts, file_path@) == last_with_path(
                        ids_all.take(j as int),
                        start.artifacts,
                        file_path@,
                    ),
                    found is None,
                decreases j,
            {
                let k = j - 1;
                let hit = match self.artifacts.get(ids[k].as_str()) {
                    Some(a) => match &a.metadata.file_path {
                        Some(p) => str_eq(p.as_str(), file_path),
                        None => false,
                    },
                    None => false,
                };
                proof {
                    let t = ids_all.take(j as int);
                    assert(t.last() == ids[k as int]@);
                    assert(t.drop_last() =~= ids_all.take(k as int));
                }
                if hit {
                    found = Some(k);
                    break;
                }
                j = k;
            }
            proof {
                if found is None {
                    assert(ids_all.take(0) =~= Seq::<Seq<char>>::empty());
                }
            }
        }
        match found {
            None => false,
            Some(k) => {
                let id = self.ref_bindings.entries()[i].1[k].clone();
                proof {
                    assert(start.rebind_target(ref_name@, file_path@) == Some(id@));
                }
                let ai = self.artifacts.index_of(id.as_str());
                let ai = match ai {
                    Some(ai) => ai,
                    None => {
                        return false;
                    },
                };
                let (key, mut a) = self.artifacts.remove_at(ai);
                a.metadata.workflow_id = crate::text::owned(workflow_id);
                self.artifacts.insert(key, a);
                let ghost mid = self@;
                proof {
                    assert(mid.artifacts =~= start.artifacts.insert(
                        id@,
                        ArtifactView {
                            metadata: MetadataView {
                                workflow_id: workflow_id@,
                                ..start.artifacts[id@].metadata
                            },
                            ..start.artifacts[id@]
                        },
                    ));
                }
                let mut ids = self.take_binding(ref_name);
                ids.push(id);
                let ghost new_ids = ids_view(ids);
                proof {
                    assert(new_ids =~= start.versions(ref_name@).push(id@));
                }
                self.put_binding(crate::text::owned(ref_name), ids);
                proof {
                    let expect = start.rebind(ref_name@, file_path@, workflow_id@);
                    assert(self@.artifacts =~= expect.artifacts);
                    assert(self@.bindings =~= expect.bindings);
                }
                true
            },
        }
    }

    /// The newest artifact bound to `ref_name`, if it belongs to `workflow_id`.
    pub fn resolve(&self, workflow_id: &str, ref_name: &str) -> (r: Option<&Artifact>)
        requires
            self.wf(),
        ensures
            match r {
                Some(a) => self@.resolve(workflow_id@, ref_name@) == Some(a@),
                None => self@.resolve(workflow_id@, ref_name@) is None,
            },
    {
        let ids = self.ref_bindings.get(ref_name)?;
        if ids.len() == 0 {
            return None;
        }
        let id = &ids[ids.len() - 1];
        let artifact = self.artifacts.get(id.as_str())?;
        if str_eq(artifact.metadata.workflow_id.as_str(), workflow_id) {
            Some(artifact)
        } else {
            None
        }
    }
}

/// What a node produced, to be recorded under each of the graph names
/// that `specs` pairs with an artifact kind.
pub struct NodeEmit<'a> {
    pub specs: &'a [(String, &'static str)],
    pub node_id: NodeId,
    pub tool_name: &'a str,
    pub artifact_name: &'a str,
    pub content: &'a str,
    pub workflow_id: &'a str,
    pub tool_input: &'a JsonValue,
}

/// The first tool kind, in table order, whose name is exactly `name`.
pub open spec fn kind_exactly(ks: Seq<ToolKind>, name: Seq<char>) -> Option<ToolKind>
    decreases ks.len(),
{
    if ks.len() == 0 {
        None
    } else if ks[0].name_spec() == name {
        Some(ks[0])
    } else {
        kind_exactly(ks.drop_first(), name)
    }
}

/// The file that a call of the tool `tool_name` with arguments `input`
/// reads or writes: the argument that the table names for that tool.
pub open spec fn node_file_path(tool_name: Seq<char>, input: JsonValue) -> Option<Seq<char>> {
    match kind_exactly(all_tool_kinds(), tool_name) {
        Some(k) => match tool_table(k).file_key {
            Some(key) => input.str_field(key),
            None => None,
        },
        None => None,
    }
}

/// The registry after recording a node's output under each of `specs`,
/// stamped with the times `ts`.
pub open spec fn emits(
    r: RegistryView,
    specs: Seq<(String, &'static str)>,
    name: Seq<char>,
    content: Seq<char>,
    node: NodeId,
    tool: Seq<char>,
    workflow_id: Seq<char>,
    file_path: Option<Seq<char>>,
    ts: Seq<std::time::SystemTime>,
) -> RegistryView
    decreases specs.len(),
{
    if specs.len() == 0 || ts.len() == 0 {
        r
    } else {
        let prev = emits(
            r,
            specs.drop_last(),
            name,
            content,
            node,
            tool,
            workflow_id,
            file_path,
            ts.drop_last(),
        );
        prev.emit(
            specs.last().0@,
            kind_named(specs.last().1@),
            name,
            content,
            MetadataView {
                produced_by_node: node,
                produced_by_tool: tool,
                timestamp: ts.last(),
                workflow_id,
                file_path,
            },
        )
    }
}

proof fn lemma_emits_versions(
    r: RegistryView,
    specs: Seq<(String, &'static str)>,
    name: Seq<char>,
    content: Seq<char>,
    node: NodeId,
    tool: Seq<char>,
    workflow_id: Seq<char>,
    file_path: Option<Seq<char>>,
    ts: Seq<std::time::SystemTime>,
    x: Seq<char>,
)
    ensures
        emits(r, specs, name, content, node, tool, workflow_id, file_path, ts).versions(x).len()
            <= r.versions(x).len() + specs.len(),
    decreases specs.len(),
{
    if specs.len() > 0 && ts.len() > 0 {
        lemma_emits_versions(
            r,
            specs.drop_last(),
            name,
            content,
            node,
            tool,
            workflow_id,
            file_path,
            ts.drop_last(),
            x,
        );
    }
}

/// The current time (`SystemTime::now`); nothing is promised of it.
#[verifier::external_body]
fn now() -> std::time::SystemTime {
    std::time::SystemTime::now()
}

fn file_path_of(tool_name: &str, input: &JsonValue) -> (r: Option<String>)
    ensures
        opt_string_view(r) == node_file_path(tool_name@, *input),
{
    let kinds = tool_kinds();
    let mut i: usize = 0;
    proof {
        assert(kinds@.skip(0) =~= kinds@);
    }
    while i < kinds.len()
        invariant
            kinds@ == all_tool_kinds(),
            i <= kinds@.len(),
            kind_exactly(all_tool_kinds(), tool_name@) == kind_exactly(kinds@.skip(i as int), tool_name@),
        decreases kinds@.len() - i,
    {
        proof {
            assert(kinds@.skip(i as int).drop_first() =~= kinds@.skip(i + 1));
        }
        if str_eq(kinds[i].as_str(), tool_name) {
            let e = ToolEntry::of_kind(kinds[i]);
            return match e.file_key {
                Some(key) => match input.get_str(key) {
                    Some(p) => Some(crate::text::owned(p)),
                    None => None,
                },
                None => None,
            };
        }
        i = i + 1;
    }
    None
}

impl ArtifactRegistry {
    /// Records what node `p.node_id` produced under each graph name of
    /// `p.specs`, with the kind paired with it (`ExecutionOutput` when the
    /// kind is unknown), stamped with the current time; the file the tool
    /// worked on, if its table entry names the argument, goes with it.
    pub fn emit_for_node(&mut self, p: NodeEmit)
        requires
            old(self).wf(),
            forall|i: int|
                0 <= i < p.specs@.len() ==> old(self)@.versions(#[trigger] p.specs@[i].0@).len()
                    + p.specs@.len() < usize::MAX,
        ensures
            final(self).wf(),
            exists|ts: Seq<std::time::SystemTime>|
                ts.len() == p.specs@.len() && final(self)@ == emits(
                    old(self)@,
                    p.specs@,
                    p.artifact_name@,
                    p.content@,
                    p.node_id,
                    p.tool_name@,
                    p.workflow_id@,
                    node_file_path(p.tool_name@, *p.tool_input),
                    ts,
                ),
    {
        let file_path = file_path_of(p.tool_name, p.tool_input);
        let ghost fp = opt_string_view(file_path);
        let ghost start = self@;
        let ghost mut ts: Seq<std::time::SystemTime> = Seq::empty();
        let mut i: usize = 0;
        while i < p.specs.len()
            invariant
                i <= p.specs@.len(),
                self.wf(),
                ts.len() == i,
                fp == node_file_path(p.tool_name@, *p.tool_input),
                fp == opt_string_view(file_path),
                self@ == emits(
                    start,
                    p.specs@.take(i as int),
                    p.artifact_name@,
                    p.content@,
                    p.node_id,
                    p.tool_name@,
                    p.workflow_id@,
                    fp,
                    ts,
                ),
                forall|k: int|
                    0 <= k < p.specs@.len() ==> start.versions(#[trigger] p.specs@[k].0@).len()
                        + p.specs@.len() < usize::MAX,
            decreases p.specs@.len() - i,
        {
            let (ref_name, kind_name) = &p.specs[i];
            let kind = ArtifactKind::parse_or_output(kind_name);
            let stamp = now();
            let metadata = ArtifactMetadata {
                produced_by_node: p.node_id,
                produced_by_tool: crate::text::owned(p.tool_name),
                timestamp: stamp,
                workflow_id: crate::text::owned(p.workflow_id),
                file_path: match &file_path {
                    Some(f) => Some(crate::text::owned(f.as_str())),
                    None => None,
                },
            };
            proof {
                lemma_emits_versions(
                    start,
                    p.specs@.take(i as int),
                    p.artifact_name@,
                    p.content@,
                    p.node_id,
                    p.tool_name@,
                    p.workflow_id@,
                    fp,
                    ts,
                    ref_name@,
                );
                assert(p.specs@.take(i as int).len() == i);
            }
            self.emit(
                crate::text::owned(ref_name.as_str()),
                kind,
                crate::text::owned(p.artifact_name),
                crate::text::owned(p.content),
                metadata,
            );
            proof {
                let ts2 = ts.push(stamp);
                assert(p.specs@.take(i + 1).drop_last() =~= p.specs@.take(i as int));
                assert(ts2.drop_last() =~= ts);
                assert(p.specs@.take(i + 1).last() == p.specs@[i as int]);
                ts = ts2;
            }
            i = i + 1;
        }
        proof {
            assert(p.specs@.take(p.specs@.len() as int) =~= p.specs@);
        }
    }
}

/// What is resolved right after an emit is the artifact just produced,
/// as its own workflow sees it; another workflow sees nothing under that
/// name.
pub proof fn lemma_resolve_after_emit(
    r: RegistryView,
    ref_name: Seq<char>,
    kind: ArtifactKind,
    name: Seq<char>,
    content: Seq<char>,
    metadata: MetadataView,
    other_workflow: Seq<char>,
)
    requires
        other_workflow != metadata.workflow_id,
    ensures
        ({
            let id = artifact_id(kind, name, r.versions(ref_name).len() + 1);
            let after = r.emit(ref_name, kind, name, content, metadata);
            &&& after.resolve(metadata.workflow_id, ref_name) == Some(
                ArtifactView { id, kind, name, content, metadata },
            )
            &&& after.resolve(other_workflow, ref_name) is None
            &&& after.versions(ref_name) == r.versions(ref_name).push(id)
        }),
{
}

/// Emitting under one name leaves what another name resolves to as it
/// was, unless the new version's id is the one that name ends in.
pub proof fn lemma_emit_keeps_other_names(
    r: RegistryView,
    ref_name: Seq<char>,
    kind: ArtifactKind,
    name: Seq<char>,
    content: Seq<char>,
    metadata: MetadataView,
    other: Seq<char>,
    workflow_id: Seq<char>,
)
    requires
        other != ref_name,
        r.versions(other).len() > 0 ==> r.versions(other).last() != artifact_id(
            kind,
            name,
            r.versions(ref_name).len() + 1,
        ),
    ensures
        r.emit(ref_name, kind, name, content, metadata).resolve(workflow_id, other) == r.resolve(
            workflow_id,
            other,
        ),
        r.emit(ref_name, kind, name, content, metadata).versions(other) == r.versions(other),
{
}

/// After a clear, no name resolves to anything.
pub proof fn lemma_resolve_after_clear(workflow_id: Seq<char>, ref_name: Seq<char>)
    ensures
        RegistryView::empty().resolve(workflow_id, ref_name) is None,
        RegistryView::empty().versions(ref_name).len() == 0,
{
}

/// A rebind that finds an artifact of the file makes it the one that the
/// name resolves to, now in the new workflow, with its content unchanged;
/// one that finds none changes nothing.
pub proof fn lemma_resolve_after_rebind(
    r: RegistryView,
    ref_name: Seq<char>,
    file_path: Seq<char>,
    workflow_id: Seq<char>,
)
    ensures
        match r.rebind_target(ref_name, file_path) {
            Some(id) => {
                let after = r.rebind(ref_name, file_path, workflow_id);
                &&& r.artifacts.contains_key(id)
                &&& after.resolve(workflow_id, ref_name) == Some(
                    ArtifactView {
                        metadata: MetadataView { workflow_id, ..r.artifacts[id].metadata },
                        ..r.artifacts[id]
                    },
                )
                &&& after.versions(ref_name).len() == r.versions(ref_name).len() + 1
            },
            None => r.rebind(ref_name, file_path, workflow_id) == r,
        },
{
    lemma_last_with_path(r.versions(ref_name), r.artifacts, file_path);
}

proof fn lemma_last_with_path(
    ids: Seq<Seq<char>>,
    artifacts: Map<Seq<char>, ArtifactView>,
    path: Seq<char>,
)
    ensures
        last_with_path(ids, artifacts, path) matches Some(id) ==> artifacts.contains_key(id)
            && artifacts[id].metadata.file_path == Some(path),
    decreases ids.len(),
{
    if ids.len() > 0 {
        lemma_last_with_path(ids.drop_last(), artifacts, path);
    }
}

/// Each emit under a name adds one version to it.
pub proof fn lemma_emit_counts_versions(
    r: RegistryView,
    ref_name: Seq<char>,
    kind: ArtifactKind,
    name: Seq<char>,
    content: Seq<char>,
    metadata: MetadataView,
)
    ensures
        r.emit(ref_name, kind, name, content, metadata).versions(ref_name).len() == r.versions(
            ref_name,
        ).len() + 1,
{
}

} // verus!
