//! From what a request means to do with a path, to the tool calls that do it.
use vstd::prelude::*;

use crate::artifact::types::{kind_named, ArtifactKind, ArtifactSpec};
use crate::bridge::tools::{tool_table, ToolEntry, ToolKind};
use crate::json::{object1, JsonValue};
use crate::planner::action::class::{ActionClass, WriteDisposition};
use crate::planner::capability::kind::CapabilityKind;
use crate::planner::traits::{HasCapability, Resolvable};
use crate::text::{eq_ignore_ascii_case_chars, eq_ignore_case_seq, owned, push_str};
use crate::validation::filesystem::guard::fs_verdict;
use crate::validation::utils::{components_spec, path_components, ComponentView, FileSystemState, PathComponent};
use crate::validation::{FsRequirement, ResolveError, Validate};

verus! {

/// What a request means to do with its target path.
#[derive(Clone, Copy, Debug, PartialEq, Eq, Structural)]
pub enum SemanticOp {
    CreateFile,
    ModifyFile,
    NotebookModifyFile,
    OverwriteFile,
    ReadFile,
    ListDirectory,
    DebugCode,
}

/// One tool call of a plan, before it becomes a node.
pub struct ExecutionStep {
    pub tool_name: String,
    pub args_hint: Option<JsonValue>,
    pub requires_artifact: Vec<String>,
    pub produces_artifact: Option<ArtifactSpec>,
}

/// The arguments known in advance for a step: none, or one string member.
pub enum HintView {
    NoHint,
    Member(Seq<char>, Seq<char>),
}

/// `h` is the hint `v`.
pub open spec fn hint_is(h: Option<JsonValue>, v: HintView) -> bool {
    match v {
        HintView::NoHint => h is None,
        HintView::Member(k, val) => {
            &&& h matches Some(JsonValue::Object(f))
            &&& h->0->Object_0@.len() == 1
            &&& h->0->Object_0@[0].0@ == k
            &&& h->0->Object_0@[0].1 matches JsonValue::Str(s)
            &&& h->0->Object_0@[0].1->Str_0@ == val
        },
    }
}

/// A step, as values.
pub struct StepView {
    pub tool: ToolKind,
    pub hint: HintView,
    pub requires: Seq<Seq<char>>,
    pub produces: Option<(Seq<char>, ArtifactKind)>,
}

pub open spec fn strings_view(v: Vec<String>) -> Seq<Seq<char>> {
    v@.map_values(|s: String| s@)
}

pub open spec fn produces_view(p: Option<ArtifactSpec>) -> Option<(Seq<char>, ArtifactKind)> {
    match p {
        Some(a) => Some((a.ref_name@, a.kind)),
        None => None,
    }
}

/// `s` is the step `v`.
pub open spec fn step_is(s: ExecutionStep, v: StepView) -> bool {
    &&& s.tool_name@ == v.tool.name_spec()
    &&& hint_is(s.args_hint, v.hint)
    &&& strings_view(s.requires_artifact) == v.requires
    &&& produces_view(s.produces_artifact) == v.produces
}

/// `steps` are, one by one, the steps `views`.
pub open spec fn steps_are(steps: Seq<ExecutionStep>, views: Seq<StepView>) -> bool {
    steps.len() == views.len() && forall|i: int| 0 <= i < steps.len() ==> step_is(steps[i], views[i])
}

/// A step of a plan, by the name of the tool it calls.
pub struct PlannedStep {
    pub name: Seq<char>,
    pub hint: HintView,
    pub requires: Seq<Seq<char>>,
    pub produces: Option<(Seq<char>, ArtifactKind)>,
}

/// The planned step that `v` describes.
pub open spec fn planned(v: StepView) -> PlannedStep {
    PlannedStep { name: v.tool.name_spec(), hint: v.hint, requires: v.requires, produces: v.produces }
}

/// `s` is the planned step `p`.
pub open spec fn step_planned(s: ExecutionStep, p: PlannedStep) -> bool {
    &&& s.tool_name@ == p.name
    &&& hint_is(s.args_hint, p.hint)
    &&& strings_view(s.requires_artifact) == p.requires
    &&& produces_view(s.produces_artifact) == p.produces
}

/// `steps` are, one by one, the planned steps `ps`.
pub open spec fn steps_planned(steps: Seq<ExecutionStep>, ps: Seq<PlannedStep>) -> bool {
    steps.len() == ps.len() && forall|i: int| 0 <= i < steps.len() ==> step_planned(steps[i], ps[i])
}

/// The step that calls tool `k` with the hint `hint`, needing and
/// producing what the tool table says.
pub open spec fn table_step(k: ToolKind, hint: HintView) -> StepView {
    StepView {
        tool: k,
        hint,
        requires: match tool_table(k).requires {
            Some(r) => seq![r],
            None => seq![],
        },
        produces: match tool_table(k).produces {
            Some((r, kind)) => Some((r, kind_named(kind))),
            None => None,
        },
    }
}

/// The step that calls tool `kind`, needing and producing what the tool
/// table says.
fn step(kind: ToolKind, args_hint: Option<JsonValue>) -> (r: ExecutionStep)
    ensures
        r.tool_name@ == kind.name_spec(),
        r.args_hint == args_hint,
        strings_view(r.requires_artifact) == table_step(kind, HintView::NoHint).requires,
        produces_view(r.produces_artifact) == table_step(kind, HintView::NoHint).produces,
{
    let entry = ToolEntry::of_kind(kind);
    let mut requires_artifact: Vec<String> = Vec::new();
    match entry.requires {
        Some(s) => requires_artifact.push(owned(s)),
        None => {},
    }
    proof {
        assert(strings_view(requires_artifact) =~= table_step(kind, HintView::NoHint).requires);
    }
    let produces_artifact = match entry.produces {
        Some((ref_name, kind_str)) => Some(
            ArtifactSpec { ref_name: owned(ref_name), kind: ArtifactKind::parse_or_output(kind_str) },
        ),
        None => None,
    };
    ExecutionStep {
        tool_name: owned(kind.as_str()),
        args_hint,
        requires_artifact,
        produces_artifact,
    }
}

impl ExecutionStep {
    /// The same step, needing exactly `requires`.
    fn with_requires(self, refs: &[&'static str]) -> (r: Self)
        ensures
            r.tool_name == self.tool_name,
            r.args_hint == self.args_hint,
            r.produces_artifact == self.produces_artifact,
            strings_view(r.requires_artifact) == refs@.map_values(|s: &str| s@),
    {
        let mut v: Vec<String> = Vec::new();
        let mut i: usize = 0;
        while i < refs.len()
            invariant
                i <= refs@.len(),
                strings_view(v) == refs@.take(i as int).map_values(|s: &str| s@),
            decreases refs@.len() - i,
        {
            let ghost before = v@;
            let item = owned(refs[i]);
            v.push(item);
            proof {
                assert(v@ == before.push(item));
                assert(strings_view(v) =~= before.map_values(|s: String| s@).push(refs@[i as int]@));
                assert(refs@.take(i + 1) =~= refs@.take(i as int).push(refs@[i as int]));
                assert(strings_view(v) =~= refs@.take(i + 1).map_values(|s: &str| s@));
            }
            i = i + 1;
        }
        proof {
            assert(refs@.take(refs@.len() as int) =~= refs@);
        }
        ExecutionStep { requires_artifact: v, ..self }
    }
}

/// The hint that names the file `path`.
pub open spec fn file_hint(path: Seq<char>) -> HintView {
    HintView::Member("file_path"@, path)
}

impl SemanticOp {
    /// What the op needs of its target path.
    pub open spec fn fs_requirement_spec(self) -> FsRequirement {
        match self {
            SemanticOp::ReadFile | SemanticOp::ModifyFile | SemanticOp::NotebookModifyFile
            | SemanticOp::DebugCode => FsRequirement::BeFile,
            SemanticOp::CreateFile | SemanticOp::OverwriteFile => FsRequirement::NotBeDir,
            SemanticOp::ListDirectory => FsRequirement::BeDir,
        }
    }

    /// What the op needs of its target path.
    pub fn fs_requirement(&self) -> (r: FsRequirement)
        ensures
            r == self.fs_requirement_spec(),
    {
        match self {
            SemanticOp::ReadFile | SemanticOp::ModifyFile | SemanticOp::NotebookModifyFile
            | SemanticOp::DebugCode => FsRequirement::BeFile,
            SemanticOp::CreateFile | SemanticOp::OverwriteFile => FsRequirement::NotBeDir,
            SemanticOp::ListDirectory => FsRequirement::BeDir,
        }
    }

    /// The steps that carry the op out on the path `abs`, which exists or
    /// not.
    pub open spec fn steps_spec(self, exists: bool, abs: Seq<char>) -> Seq<StepView> {
        let fp = file_hint(abs);
        match self {
            SemanticOp::CreateFile => if exists {
                seq![table_step(ToolKind::Read, fp), table_step(ToolKind::Write, fp)]
            } else {
                seq![table_step(ToolKind::Write, fp)]
            },
            SemanticOp::ModifyFile => seq![
                table_step(ToolKind::Read, fp),
                table_step(ToolKind::Edit, fp),
            ],
            SemanticOp::ReadFile => seq![table_step(ToolKind::Read, fp)],
            SemanticOp::NotebookModifyFile => seq![
                table_step(ToolKind::Read, fp),
                table_step(ToolKind::NotebookEdit, HintView::Member("notebook_path"@, abs)),
            ],
            SemanticOp::OverwriteFile => seq![table_step(ToolKind::Write, fp)],
            SemanticOp::ListDirectory => seq![
                table_step(ToolKind::Bash, HintView::Member("command"@, "ls -la "@ + abs)),
            ],
            SemanticOp::DebugCode => seq![
                table_step(ToolKind::WebSearch, HintView::NoHint),
                table_step(ToolKind::Read, fp),
                StepView {
                    requires: seq!["file_content"@, "search_results"@],
                    ..table_step(ToolKind::Edit, fp)
                },
            ],
        }
    }

    /// The steps of the op on a target, or why the target does not fit.
    pub open spec fn resolve_spec(self, exists: bool, is_dir: bool, abs: Seq<char>) -> Result<
        Seq<StepView>,
        ResolveError,
    > {
        match fs_verdict(exists, is_dir, self.fs_requirement_spec()) {
            Err(e) => Err(e),
            Ok(()) => Ok(self.steps_spec(exists, abs)),
        }
    }
}

/// The extension of the file name `name`: what follows its last dot, when
/// that dot is not its first character.
pub open spec fn name_extension(name: Seq<char>) -> Option<Seq<char>> {
    if exists|i: int| 0 < i < name.len() && name[i] == '.' {
        let i = choose|i: int|
            0 < i < name.len() && name[i] == '.' && forall|j: int| i < j < name.len() ==> name[j]
                != '.';
        Some(name.skip(i + 1))
    } else {
        None
    }
}

/// The extension of a path (`Path::extension`): that of its last
/// component, when that is a name.
pub open spec fn path_extension(p: Seq<char>) -> Option<Seq<char>> {
    let cs = components_spec(p);
    if cs.len() > 0 {
        match cs.last() {
            ComponentView::Normal(n) => name_extension(n),
            _ => None,
        }
    } else {
        None
    }
}

/// The path is a notebook: its extension is `ipynb` up to ASCII case.
pub open spec fn is_notebook_path(p: Seq<char>) -> bool {
    match path_extension(p) {
        Some(e) => eq_ignore_case_seq(e, "ipynb"@),
        None => false,
    }
}

fn name_extension_exec(name: &String) -> (r: Option<Vec<char>>)
    ensures
        match r {
            Some(v) => name_extension(name@) == Some(v@),
            None => name_extension(name@) is None,
        },
{
    let v = crate::text::chars_of(name.as_str());
    let mut i = v.len();
    while i > 1 && v[i - 1] != '.'
        invariant
            i <= v@.len(),
            v@ == name@,
            forall|j: int| i <= j < v@.len() ==> v@[j] != '.',
        decreases i,
    {
        i = i - 1;
    }
    if i > 1 {
        let k = i - 1;
        proof {
            assert(v@[k as int] == '.');
            let c = choose|c: int|
                0 < c < name@.len() && name@[c] == '.' && forall|j: int|
                    c < j < name@.len() ==> name@[j] != '.';
            assert(c == k);
        }
        let mut out: Vec<char> = Vec::new();
        let mut j = i;
        while j < v.len()
            invariant
                i <= j <= v@.len(),
                out@ == v@.subrange(i as int, j as int),
            decreases v@.len() - j,
        {
            out.push(v[j]);
            proof {
                assert(v@.subrange(i as int, j + 1) =~= v@.subrange(i as int, j as int).push(v@[j as int]));
            }
            j = j + 1;
        }
        proof {
            assert(v@.subrange(i as int, v@.len() as int) =~= v@.skip(i as int));
        }
        Some(out)
    } else {
        proof {
            assert forall|c: int| !(0 < c < name@.len() && name@[c] == '.') by {
                if 0 < c < name@.len() && name@[c] == '.' {
                    assert(c >= i);
                }
            }
        }
        None
    }
}

/// Whether the path `p` names a notebook.
fn is_notebook(p: &String) -> (b: bool)
    ensures
        b == is_notebook_path(p@),
{
    let comps = path_components(p.as_str());
    let ghost cs = comps@.map_values(|c: PathComponent| c@);
    if comps.len() == 0 {
        return false;
    }
    match &comps[comps.len() - 1] {
        PathComponent::Normal(n) => {
            proof {
                assert(cs.last() == ComponentView::Normal(n@));
            }
            match name_extension_exec(n) {
                Some(e) => {
                    let ipynb = crate::text::chars_of("ipynb");
                    eq_ignore_ascii_case_chars(&e, &ipynb)
                },
                None => false,
            }
        },
        _ => {
            proof {
                assert(!(cs.last() is Normal));
            }
            false
        },
    }
}

impl SemanticOp {
    /// The op that an action means on a target, given how a write treats an
    /// existing file.
    pub open spec fn from_action_spec(
        action: ActionClass,
        write_disposition: Option<WriteDisposition>,
        exists: bool,
        is_dir: bool,
        abs: Seq<char>,
    ) -> Option<SemanticOp> {
        match action {
            ActionClass::ReadFile => Some(SemanticOp::ReadFile),
            ActionClass::ListDirectory => Some(SemanticOp::ListDirectory),
            ActionClass::EditFile => if is_notebook_path(abs) {
                Some(SemanticOp::NotebookModifyFile)
            } else {
                Some(SemanticOp::ModifyFile)
            },
            ActionClass::DebugCode => Some(SemanticOp::DebugCode),
            ActionClass::WriteFile => Some(
                match write_disposition {
                    Some(WriteDisposition::CreateNew) => SemanticOp::CreateFile,
                    Some(WriteDisposition::ModifyExisting) => SemanticOp::ModifyFile,
                    Some(WriteDisposition::OverwriteExisting) => SemanticOp::OverwriteFile,
                    _ => if exists {
                        SemanticOp::ModifyFile
                    } else {
                        SemanticOp::CreateFile
                    },
                },
            ),
            _ => if is_dir {
                Some(SemanticOp::ListDirectory)
            } else {
                None
            },
        }
    }

    /// The op that an action means on the target `fs`.
    pub fn from_action(
        action: &ActionClass,
        write_disposition: Option<&WriteDisposition>,
        fs: &FileSystemState,
    ) -> (r: Option<Self>)
        ensures
            r == Self::from_action_spec(
                *action,
                match write_disposition {
                    Some(w) => Some(*w),
                    None => None,
                },
                fs.exists,
                fs.is_dir,
                fs.abs_path@,
            ),
    {
        match action {
            ActionClass::ReadFile => Some(SemanticOp::ReadFile),
            ActionClass::ListDirectory => Some(SemanticOp::ListDirectory),
            ActionClass::EditFile => {
                if is_notebook(&fs.abs_path) {
                    Some(SemanticOp::NotebookModifyFile)
                } else {
                    Some(SemanticOp::ModifyFile)
                }
            },
            ActionClass::DebugCode => Some(SemanticOp::DebugCode),
            ActionClass::WriteFile => Some(
                match write_disposition {
                    Some(WriteDisposition::CreateNew) => SemanticOp::CreateFile,
                    Some(WriteDisposition::ModifyExisting) => SemanticOp::ModifyFile,
                    Some(WriteDisposition::OverwriteExisting) => SemanticOp::OverwriteFile,
                    Some(WriteDisposition::EnsureExists) | None => {
                        if fs.exists {
                            SemanticOp::ModifyFile
                        } else {
                            SemanticOp::CreateFile
                        }
                    },
                },
            ),
            _ => {
                if fs.is_dir {
                    Some(SemanticOp::ListDirectory)
                } else {
                    None
                }
            },
        }
    }
}

impl HasCapability for SemanticOp {
    open spec fn capability_spec(&self) -> CapabilityKind {
        match self {
            SemanticOp::ReadFile => CapabilityKind::Read,
            SemanticOp::CreateFile | SemanticOp::ModifyFile | SemanticOp::NotebookModifyFile
            | SemanticOp::OverwriteFile => CapabilityKind::Edit,
            SemanticOp::ListDirectory => CapabilityKind::Execute,
            SemanticOp::DebugCode => CapabilityKind::Search,
        }
    }

    fn capability(&self) -> (k: CapabilityKind) {
        match self {
            SemanticOp::ReadFile => CapabilityKind::Read,
            SemanticOp::CreateFile | SemanticOp::ModifyFile | SemanticOp::NotebookModifyFile
            | SemanticOp::OverwriteFile => CapabilityKind::Edit,
            SemanticOp::ListDirectory => CapabilityKind::Execute,
            SemanticOp::DebugCode => CapabilityKind::Search,
        }
    }
}

fn file_hint_value(fs: &FileSystemState) -> (r: Option<JsonValue>)
    ensures
        hint_is(r, file_hint(fs.abs_path@)),
{
    let p = owned(fs.abs_path.as_str());
    Some(object1("file_path", p))
}

impl Resolvable for SemanticOp {
    open spec fn resolve_requires(&self, fs_state: Option<&FileSystemState>) -> bool {
        fs_state is Some
    }

    /// The steps that carry the op out on the target, or why the target
    /// does not fit the op.
    fn resolve(&self, fs_state: Option<&FileSystemState>) -> (r: Result<
        Vec<ExecutionStep>,
        ResolveError,
    >)
        ensures
            fs_state matches Some(fs) ==> match (r, self.resolve_spec(fs.exists, fs.is_dir, fs.abs_path@)) {
                (Ok(steps), Ok(views)) => steps_are(steps@, views),
                (Err(e), Err(e2)) => e == e2,
                _ => false,
            },
    {
        let fs = fs_state.unwrap();
        let req = self.fs_requirement();
        match fs.validate(&req) {
            Err(e) => {
                return Err(e);
            },
            Ok(()) => {},
        }
        let ghost abs = fs.abs_path@;
        let steps: Vec<ExecutionStep> = match self {
            SemanticOp::CreateFile => {
                if fs.exists {
                    let a = step(ToolKind::Read, file_hint_value(fs));
                    let b = step(ToolKind::Write, file_hint_value(fs));
                    vec![a, b]
                } else {
                    let a = step(ToolKind::Write, file_hint_value(fs));
                    vec![a]
                }
            },
            SemanticOp::ModifyFile => {
                let a = step(ToolKind::Read, file_hint_value(fs));
                let b = step(ToolKind::Edit, file_hint_value(fs));
                vec![a, b]
            },
            SemanticOp::ReadFile => {
                let a = step(ToolKind::Read, file_hint_value(fs));
                vec![a]
            },
            SemanticOp::NotebookModifyFile => {
                let a = step(ToolKind::Read, file_hint_value(fs));
                let hint = object1("notebook_path", owned(fs.abs_path.as_str()));
                let b = step(ToolKind::NotebookEdit, Some(hint));
                vec![a, b]
            },
            SemanticOp::OverwriteFile => {
                let a = step(ToolKind::Write, file_hint_value(fs));
                vec![a]
            },
            SemanticOp::ListDirectory => {
                let mut cmd = String::new();
                push_str(&mut cmd, "ls -la ");
                push_str(&mut cmd, fs.abs_path.as_str());
                let hint = object1("command", cmd);
                let a = step(ToolKind::Bash, Some(hint));
                vec![a]
            },
            SemanticOp::DebugCode => {
                let a = step(ToolKind::WebSearch, None);
                let b = step(ToolKind::Read, file_hint_value(fs));
                let c = step(ToolKind::Edit, file_hint_value(fs)).with_requires(
                    &["file_content", "search_results"],
                );
                vec![a, b, c]
            },
        };
        proof {
            let views = self.steps_spec(fs.exists, abs);
            assert(steps@.len() == views.len());
            assert forall|i: int| 0 <= i < steps@.len() implies step_is(steps@[i], views[i]) by {
                if *self == SemanticOp::DebugCode && i == 2 {
                    assert(strings_view(steps@[2].requires_artifact) =~= seq![
                        "file_content"@,
                        "search_results"@,
                    ]);
                }
            }
        }
        Ok(steps)
    }
}

/// Some step before step `i` of `views` produces the artifact `r`.
pub open spec fn produced_before(views: Seq<StepView>, i: int, r: Seq<char>) -> bool {
    exists|j: int| 0 <= j < i && #[trigger] produced_name(views[j]) == Some(r)
}

/// The name of the artifact that a step produces.
pub open spec fn produced_name(v: StepView) -> Option<Seq<char>> {
    match v.produces {
        Some((r, _)) => Some(r),
        None => None,
    }
}

/// A plan that an op resolves to has a step, and every artifact that one
/// of its steps needs is produced by an earlier step.
pub proof fn lemma_resolved_steps_have_producers(op: SemanticOp, exists: bool, is_dir: bool, abs: Seq<char>)
    ensures
        op.resolve_spec(exists, is_dir, abs) matches Ok(views) ==> views.len() > 0 && forall|i: int, r: Seq<char>|
            0 <= i < views.len() && #[trigger] views[i].requires.contains(r) ==> produced_before(views, i, r),
{
    match op.resolve_spec(exists, is_dir, abs) {
        Ok(views) => {
            assert(views == op.steps_spec(exists, abs));
            let fp = file_hint(abs);
            let read = table_step(ToolKind::Read, fp);
            assert(read.produces == Some(("file_content"@, kind_named("file_content"@))));
            assert(views.len() > 0);
            assert forall|i: int, r: Seq<char>|
                0 <= i < views.len() && #[trigger] views[i].requires.contains(r) implies produced_before(views, i, r) by {
                match op {
                    SemanticOp::DebugCode => {
                        let ws = table_step(ToolKind::WebSearch, HintView::NoHint);
                        assert(ws.produces == Some(("search_results"@, kind_named("search_results"@))));
                        assert(views[0] == ws);
                        assert(views[1] == read);
                        if i == 2 {
                            assert(views[i].requires == seq!["file_content"@, "search_results"@]);
                            if r == "file_content"@ {
                                assert(produced_name(views[1]) == Some(r));
                            } else {
                                let k = choose|k: int| 0 <= k < views[i].requires.len() && views[i].requires[k] == r;
                                assert(r == "search_results"@);
                                assert(produced_name(views[0]) == Some(r));
                            }
                        }
                    },
                    SemanticOp::ModifyFile | SemanticOp::NotebookModifyFile => {
                        assert(views[0] == read);
                        if i == 1 {
                            let k = choose|k: int| 0 <= k < views[i].requires.len() && views[i].requires[k] == r;
                            assert(r == "file_content"@);
                            assert(produced_name(views[0]) == Some(r));
                        }
                    },
                    _ => {
                        if exists && op == SemanticOp::CreateFile {
                            assert(views[0] == read);
                        }
                    },
                }
            }
        },
        Err(_) => {},
    }
}

/// The name of the artifact that an execution step produces.
pub open spec fn step_produced_name(s: ExecutionStep) -> Option<Seq<char>> {
    match s.produces_artifact {
        Some(a) => Some(a.ref_name@),
        None => None,
    }
}

/// The steps that an op resolves to: at least one, and every artifact that
/// one of them needs is produced by an earlier one.
pub proof fn lemma_resolve_steps_have_producers(
    op: SemanticOp,
    steps: Seq<ExecutionStep>,
    exists: bool,
    is_dir: bool,
    abs: Seq<char>,
)
    requires
        op.resolve_spec(exists, is_dir, abs) is Ok,
        steps_are(steps, op.resolve_spec(exists, is_dir, abs)->Ok_0),
    ensures
        steps.len() > 0,
        forall|i: int, r: Seq<char>|
            0 <= i < steps.len() && #[trigger] strings_view(steps[i].requires_artifact).contains(r)
                ==> exists|j: int| 0 <= j < i && #[trigger] step_produced_name(steps[j]) == Some(r),
{
    let views = op.resolve_spec(exists, is_dir, abs)->Ok_0;
    lemma_resolved_steps_have_producers(op, exists, is_dir, abs);
    assert forall|i: int, r: Seq<char>|
        0 <= i < steps.len() && #[trigger] strings_view(steps[i].requires_artifact).contains(r)
        implies exists|j: int| 0 <= j < i && #[trigger] step_produced_name(steps[j]) == Some(r) by {
        assert(step_is(steps[i], views[i]));
        assert(views[i].requires.contains(r));
        assert(produced_before(views, i, r));
        let j = choose|j: int| 0 <= j < i && #[trigger] produced_name(views[j]) == Some(r);
        assert(step_is(steps[j], views[j]));
        assert(step_produced_name(steps[j]) == Some(r));
    }
}


/// A write replaces an existing file only when it is told to overwrite:
/// without a disposition, or when it is only to make sure the file exists,
/// an existing file is modified (read, then edited) and a missing one is
/// created.
pub proof fn lemma_write_overwrites_only_when_told(
    disposition: Option<WriteDisposition>,
    exists: bool,
    is_dir: bool,
    abs: Seq<char>,
)
    ensures
        (SemanticOp::from_action_spec(ActionClass::WriteFile, disposition, exists, is_dir, abs)
            == Some(SemanticOp::OverwriteFile)) <==> disposition == Some(WriteDisposition::OverwriteExisting),
        (disposition is None || disposition == Some(WriteDisposition::EnsureExists)) ==> SemanticOp::from_action_spec(
            ActionClass::WriteFile,
            disposition,
            exists,
            is_dir,
            abs,
        ) == Some(
            if exists {
                SemanticOp::ModifyFile
            } else {
                SemanticOp::CreateFile
            },
        ),
{
}

} // verus!
