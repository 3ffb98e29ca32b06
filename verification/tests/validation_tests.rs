use std::collections::{HashMap, HashSet};

use clounar::artifact::{ArtifactKind, ArtifactSpec};
use clounar::bridge::{ArgField, ArgType, ToolEntry, ToolKind};
use clounar::json::JsonValue;
use clounar::planner::{
    ActionClass, CapabilityRegistry, ExecutionGraph, ExecutionNode, IntentPlan, NodeKind,
    PathSource, TaskKind, ToolCapability, CapabilityKind,
};
use clounar::validation::args::validate::{json_type, validate_fields};
use clounar::validation::content::ContentError;
use clounar::validation::semantic::{parent_verdict, SemanticValidationError};
use clounar::validation::{
    check, validate_args, validate_intent, ArgValidationError, ContractContext,
    ExecutionContractError, ExecutionGuardError, FileSystemState, FsRequirement, FsSnapshot,
    GuardContext, IntentValidationError, ResolveError, RuntimeError, SemanticContext, ToolError,
    Transform, TransformCheck, TransformContext, Validate,
};

fn s(x: &str) -> JsonValue {
    JsonValue::Str(x.to_string())
}

fn obj(fields: Vec<(&str, JsonValue)>) -> JsonValue {
    JsonValue::Object(fields.into_iter().map(|(k, v)| (k.to_string(), v)).collect())
}

fn fs() -> FsSnapshot {
    let mut f = FsSnapshot::new();
    f.add("/work".to_string(), true);
    f.add("/work/a.txt".to_string(), false);
    f.add("/work/src".to_string(), true);
    f
}

fn plan(action: ActionClass, path: Option<&str>) -> IntentPlan {
    IntentPlan {
        action,
        task_kind: TaskKind::Procedural,
        path: path.map(|p| PathSource::Explicit(p.to_string())),
        write_disposition: None,
    }
}

#[test]
fn paths_resolve_against_the_working_directory() {
    let st = check("./src/../a.txt", "/work", &fs());
    assert!(st.exists);
    assert!(!st.is_dir);
    assert_eq!(st.abs_path, "/work/a.txt");
    let st = check("/etc//x/", "/work", &fs());
    assert!(!st.exists);
    assert_eq!(st.abs_path, "/etc/x");
}

#[test]
fn filesystem_requirements_give_their_errors() {
    let file = FileSystemState { exists: true, is_dir: false, abs_path: "/f".to_string() };
    let dir = FileSystemState { exists: true, is_dir: true, abs_path: "/d".to_string() };
    let none = FileSystemState { exists: false, is_dir: false, abs_path: "/n".to_string() };
    assert!(file.validate(&FsRequirement::BeFile).is_ok());
    assert_eq!(none.validate(&FsRequirement::BeFile), Err(ResolveError::TargetNotFound));
    assert_eq!(dir.validate(&FsRequirement::BeFile), Err(ResolveError::TargetIsDirectory));
    assert!(none.validate(&FsRequirement::NotBeDir).is_ok());
    assert_eq!(file.validate(&FsRequirement::BeDir), Err(ResolveError::TargetNotFound));
    assert_eq!(ResolveError::TargetIsDirectory.to_string(), "target is a directory");
}

#[test]
fn intents_get_a_canonical_subject() {
    let v = validate_intent(&plan(ActionClass::ReadFile, Some(" a.txt ")), "/work", &fs()).unwrap();
    assert_eq!(v.canonical_subject.as_deref(), Some("/work/a.txt"));
    let v = validate_intent(&plan(ActionClass::ExecuteCommand, Some("make all")), "/work", &fs()).unwrap();
    assert_eq!(v.canonical_subject.as_deref(), Some("make all"));
}

#[test]
fn intents_without_a_usable_subject_are_refused() {
    let e = validate_intent(&plan(ActionClass::ReadFile, None), "/work", &fs()).err().unwrap();
    assert_eq!(e, IntentValidationError::MissingSubject);
    let e = validate_intent(&plan(ActionClass::EditFile, Some(" null ")), "/work", &fs()).err().unwrap();
    assert_eq!(e, IntentValidationError::EmptySubject);
    let e = validate_intent(&plan(ActionClass::ReadFile, Some("src")), "/work", &fs()).err().unwrap();
    assert_eq!(e, IntentValidationError::InvalidPath);
    let e = validate_intent(&plan(ActionClass::ListDirectory, Some("a.txt")), "/work", &fs()).err().unwrap();
    assert_eq!(e, IntentValidationError::InvalidPath);
    assert_eq!(e.to_string(), "path incompatible with action");
    assert_eq!(IntentValidationError::MissingSubject.to_string(), "subject required but not provided");
}

fn registry_with(kind: CapabilityKind) -> CapabilityRegistry {
    let cap = ToolCapability { kind, produces: &[], requires: &[] };
    CapabilityRegistry::build(vec![("Tool".to_string(), cap)])
}

#[test]
fn semantic_check_needs_a_capable_tool() {
    let reg = registry_with(CapabilityKind::Read);
    let f = fs();
    let ctx = SemanticContext { registry: &reg, fs: &f };
    let v = validate_intent(&plan(ActionClass::ReadFile, Some("a.txt")), "/work", &f).unwrap();
    assert!(v.validate(&ctx).is_ok());
    let v = validate_intent(&plan(ActionClass::WriteFile, Some("a.txt")), "/work", &f).unwrap();
    assert_eq!(v.validate(&ctx), Err(SemanticValidationError::NoCompatibleCapability));
}

#[test]
fn writes_need_an_existing_parent_directory() {
    let reg = registry_with(CapabilityKind::Write);
    let f = fs();
    let ctx = SemanticContext { registry: &reg, fs: &f };
    let ok = validate_intent(&plan(ActionClass::WriteFile, Some("src/new.rs")), "/work", &f).unwrap();
    assert!(ok.validate(&ctx).is_ok());
    let bad = validate_intent(&plan(ActionClass::WriteFile, Some("nowhere/new.rs")), "/work", &f).unwrap();
    assert_eq!(bad.validate(&ctx), Err(SemanticValidationError::ParentDirectoryMissing));
    assert_eq!(parent_verdict(Some("/work"), &f), Ok(()));
    assert_eq!(
        SemanticValidationError::ParentDirectoryMissing.to_string(),
        "parent directory does not exist"
    );
}

#[test]
fn arguments_are_checked_in_declared_order() {
    let fields = [
        ArgField::Required("file_path", ArgType::NonEmptyString),
        ArgField::Optional("limit", ArgType::Number),
        ArgField::Optional("flag", ArgType::Bool),
        ArgField::Optional("items", ArgType::NonEmptyArray),
    ];
    let ok = obj(vec![("file_path", s("x")), ("limit", JsonValue::Number("3".to_string()))]);
    assert!(validate_args(&ToolKind::Read, &fields, &ok).is_ok());
    let e = validate_args(&ToolKind::Read, &fields, &obj(vec![])).unwrap_err();
    assert_eq!(e.to_string(), "required argument 'file_path' is missing");
    let e = validate_args(&ToolKind::Read, &fields, &obj(vec![("file_path", s("  "))])).unwrap_err();
    assert_eq!(e.to_string(), "argument 'file_path' must not be empty");
    let e = validate_args(
        &ToolKind::Read,
        &fields,
        &obj(vec![("file_path", s("x")), ("limit", s("3"))]),
    )
    .unwrap_err();
    assert_eq!(e.to_string(), "argument 'limit' expected number, got string");
    let e = validate_args(
        &ToolKind::Read,
        &fields,
        &obj(vec![("file_path", s("x")), ("flag", JsonValue::Null)]),
    )
    .unwrap_err();
    assert_eq!(e.to_string(), "argument 'flag' expected boolean, got null");
    let e = validate_args(
        &ToolKind::Read,
        &fields,
        &obj(vec![("file_path", s("x")), ("items", JsonValue::Array(vec![]))]),
    )
    .unwrap_err();
    assert_eq!(e.to_string(), "argument 'items' must not be empty");
    assert_eq!(json_type(&JsonValue::Object(vec![])), "object");
}

#[test]
fn edit_arguments_must_name_a_real_change() {
    let fields = [ArgField::Required("old_string", ArgType::String)];
    let e = validate_args(&ToolKind::Edit, &fields, &obj(vec![("old_string", s(""))])).unwrap_err();
    assert!(matches!(e, ArgValidationError::SemanticViolation(_)));
    assert_eq!(
        e.to_string(),
        "semantic violation: old_string is empty — Edit requires a non-empty search string"
    );
    let e = validate_args(
        &ToolKind::Edit,
        &fields,
        &obj(vec![("old_string", s("a")), ("new_string", s("a"))]),
    )
    .unwrap_err();
    assert_eq!(
        e.to_string(),
        "semantic violation: old_string and new_string are identical — edit would be a no-op"
    );
    let e = validate_args(
        &ToolKind::Edit,
        &fields,
        &obj(vec![("old_string", s("( )")), ("new_string", s("x"))]),
    )
    .unwrap_err();
    assert_eq!(
        e.to_string(),
        "semantic violation: old_string contains only punctuation or whitespace — too vague to match safely"
    );
    assert!(validate_args(
        &ToolKind::Edit,
        &fields,
        &obj(vec![("old_string", s("fn a")), ("new_string", s("fn b"))]),
    )
    .is_ok());
    let e = validate_args(&ToolKind::NotebookEdit, &[], &obj(vec![("cell_id", s(" "))])).unwrap_err();
    assert_eq!(
        e.to_string(),
        "semantic violation: cell_id must not be empty — read the notebook first to get a valid cell ID"
    );
    let entry = ToolEntry::from_name("Edit").unwrap();
    assert!(entry.validate_args(&obj(vec![])).is_err());
}

#[test]
fn the_tool_rule_runs_after_the_declared_arguments() {
    let r = validate_fields(&obj(vec![]), &[], |_a: &JsonValue| {
        Err(ArgValidationError::EmptyValue("z".to_string()))
    });
    assert_eq!(r.unwrap_err().to_string(), "argument 'z' must not be empty");
}

#[test]
fn runtime_errors_are_recognised_by_their_text() {
    assert_eq!(RuntimeError::from_str("request timeout"), Some(RuntimeError::Timeout));
    assert_eq!(RuntimeError::from_str("malformed json"), Some(RuntimeError::Malformed));
    assert_eq!(RuntimeError::from_str("was interrupted"), Some(RuntimeError::Interrupted));
    assert_eq!(RuntimeError::from_str("cannot canonicalize"), Some(RuntimeError::InvalidPath));
    assert_eq!(RuntimeError::from_str("timeout: invalid path"), Some(RuntimeError::Timeout));
    assert_eq!(RuntimeError::from_str("fine"), None);
}

#[test]
fn numbered_listings_lose_their_numbers() {
    assert_eq!(TransformCheck::strip("1\tfn a()\n12\t  b\nno tab\nx\ty"), "fn a()\n  b\nno tab\nx\ty");
    assert_eq!(TransformCheck::strip("\tlead\n"), "lead");
}

#[test]
fn edit_checks_depend_on_what_the_edit_names() {
    let refs = vec!["file_content".to_string()];
    let input = obj(vec![("old_string", s("b")), ("new_string", s("c"))]);
    match TransformCheck::from_args(&input, &refs, Some("1\tabc")) {
        TransformCheck::Required { old, content } => {
            assert_eq!(old, "b");
            assert_eq!(content, "abc");
        },
        _ => panic!("expected a required check"),
    }
    assert!(matches!(
        TransformCheck::from_args(&obj(vec![("new_string", s("c"))]), &refs, None),
        TransformCheck::MissingOld
    ));
    assert!(matches!(
        TransformCheck::from_args(&obj(vec![]), &refs, None),
        TransformCheck::NotApplicable
    ));
    assert!(matches!(TransformCheck::from_args(&input, &[], None), TransformCheck::NotApplicable));
}

#[test]
fn transforms_need_their_search_string_in_the_file() {
    let ctx = TransformContext { file_content: "hello world" };
    assert!(Transform { old_string: "lo w" }.validate(&ctx).is_ok());
    assert_eq!(Transform { old_string: "xyz" }.validate(&ctx), Err(ContentError::OldStringNotFound));
    assert_eq!(ContentError::OldStringNotFound.to_string(), "old_string not found in file content");
}

fn node(id: u32, tool: &str, produces: Vec<ArtifactSpec>, refs: Vec<&str>) -> ExecutionNode {
    ExecutionNode {
        id,
        kind: NodeKind::Execution,
        tool_name: tool.to_string(),
        required_artifact_refs: refs.into_iter().map(|r| r.to_string()).collect(),
        produces_artifacts: produces,
        args_hint: None,
    }
}

fn graph(nodes: Vec<ExecutionNode>, deps: Vec<(u32, Vec<u32>)>) -> ExecutionGraph {
    let ordering = nodes.iter().map(|n| n.id).collect();
    let mut m = HashMap::new();
    for n in nodes {
        m.insert(n.id, n);
    }
    ExecutionGraph { nodes: m, dependencies: deps.into_iter().collect(), ordering }
}

fn spec(r: &str, k: ArtifactKind) -> ArtifactSpec {
    ArtifactSpec { ref_name: r.to_string(), kind: k }
}

#[test]
fn graph_contracts_report_each_fault() {
    let empty = graph(vec![], vec![]);
    assert!(matches!(empty.validate(&ContractContext), Err(ExecutionContractError::EmptyGraph)));
    let cyclic = graph(vec![node(1, "Read", vec![], vec![]), node(2, "Read", vec![], vec![])], vec![(1, vec![2]), (2, vec![1])]);
    assert!(matches!(cyclic.validate(&ContractContext), Err(ExecutionContractError::CyclicDependency)));
    let missing = graph(vec![node(1, "Edit", vec![], vec!["file_content"])], vec![]);
    match missing.validate(&ContractContext) {
        Err(e) => assert_eq!(e.to_string(), "no producer for artifact ref: file_content"),
        Ok(()) => panic!("expected an error"),
    }
    let late = graph(
        vec![
            node(1, "Edit", vec![], vec!["file_content"]),
            node(2, "Read", vec![spec("file_content", ArtifactKind::FileSnapshot)], vec![]),
        ],
        vec![],
    );
    match late.validate(&ContractContext) {
        Err(e) => assert_eq!(e.to_string(), "producer after consumer for artifact ref: file_content"),
        Ok(()) => panic!("expected an error"),
    }
    assert_eq!(ExecutionContractError::NoToolForAction(ActionClass::WebSearch).to_string(), "no active tool can satisfy action WebSearch");
}

#[test]
fn graph_structure_reports_unknown_nodes() {
    let g = graph(vec![node(1, "Read", vec![], vec![])], vec![(1, vec![7])]);
    assert_eq!(g.validate_structure(), Err("node 1 depends on unknown node 7".to_string()));
    let mut g2 = graph(vec![node(1, "", vec![], vec![])], vec![]);
    assert_eq!(g2.validate_structure(), Err("node 1 has no tool_name".to_string()));
    g2.ordering.push(9);
    assert_eq!(g2.validate_structure(), Err("ordering references unknown node id=9".to_string()));
}

#[test]
fn nodes_run_only_when_ready_and_capable() {
    let cap = ToolCapability { kind: CapabilityKind::Read, produces: &["file_content"], requires: &[] };
    let reg = CapabilityRegistry::build(vec![("Read".to_string(), cap)]);
    let g = graph(
        vec![
            node(1, "Read", vec![spec("file_content", ArtifactKind::FileSnapshot)], vec![]),
            node(2, "Read", vec![spec("out", ArtifactKind::ExecutionOutput)], vec![]),
            node(3, "Nope", vec![], vec![]),
        ],
        vec![(2, vec![1])],
    );
    let mut done = HashSet::new();
    let ctx = GuardContext { graph: &g, completed: &done, registry: &reg };
    assert!(g.nodes[&1].validate(&ctx).is_ok());
    let e = g.nodes[&2].validate(&ctx).unwrap_err();
    assert_eq!(e.to_string(), "dependency node 1 not yet completed");
    let e = g.nodes[&3].validate(&ctx).unwrap_err();
    assert_eq!(e.to_string(), "tool 'Nope' not found in capability registry");
    done.insert(1);
    let ctx = GuardContext { graph: &g, completed: &done, registry: &reg };
    let e = g.nodes[&2].validate(&ctx).unwrap_err();
    assert_eq!(
        e.to_string(),
        "capability mismatch: tool 'Read' cannot produce artifact ref 'out'"
    );
    let t = ToolError::from(e);
    assert_eq!(
        t.to_string(),
        "execution guard failed: capability mismatch: tool 'Read' cannot produce artifact ref 'out'"
    );
}

#[test]
fn tool_errors_have_their_messages() {
    assert_eq!(ToolError::TransformMissingOld.to_string(), "edit blocked: missing target string. No changes were made.");
    assert_eq!(ToolError::TransformInvalid("x".to_string()).to_string(), "edit blocked: x. No changes were made.");
    assert_eq!(ToolError::ArgsBuildFailed("y".to_string()).to_string(), "failed to build args: y");
    let t = ToolError::from_arg_error(ArgValidationError::MissingRequired("q".to_string()));
    assert_eq!(t.to_string(), "argument validation failed: required argument 'q' is missing");
    let g = ExecutionGuardError::UnknownTool("T".to_string());
    assert_eq!(g.to_string(), "tool 'T' not found in capability registry");
}

#[test]
fn a_diamond_of_dependencies_is_no_cycle() {
    let g = graph(
        vec![
            node(1, "Read", vec![], vec![]),
            node(2, "Read", vec![], vec![]),
            node(3, "Read", vec![], vec![]),
        ],
        vec![(3, vec![1, 2]), (2, vec![1])],
    );
    assert!(g.validate(&ContractContext).is_ok());
}
