use clounar::artifact::ArtifactKind;
use clounar::json::JsonValue;
use clounar::planner::{
    ActionClass, CapabilityKind, CapabilityRegistry, IntentPlan, NodeKind, PathSource, SemanticOp,
    TaskDecomposition, TaskIntent, TaskKind, ToolCapability, WriteDisposition,
};
use clounar::planner::HasCapability;
use clounar::validation::{ContractContext, ExecutionContractError, FsSnapshot, Validate};

fn s(x: &str) -> JsonValue {
    JsonValue::Str(x.to_string())
}

fn obj(fields: Vec<(&str, JsonValue)>) -> JsonValue {
    JsonValue::Object(fields.into_iter().map(|(k, v)| (k.to_string(), v)).collect())
}

fn tool(name: &str, props: &[&str]) -> JsonValue {
    obj(vec![
        ("name", s(name)),
        (
            "input_schema",
            obj(vec![
                ("type", s("object")),
                ("properties", obj(props.iter().map(|p| (*p, obj(vec![]))).collect())),
            ]),
        ),
    ])
}

fn tools() -> Vec<JsonValue> {
    vec![
        tool("Read", &["file_path", "offset"]),
        tool("Edit", &["file_path", "old_string", "new_string"]),
        tool("Bash", &["command", "timeout"]),
    ]
}

fn registry(ts: &[JsonValue]) -> CapabilityRegistry {
    let mut entries = Vec::new();
    for t in ts {
        if let Ok(c) = ToolCapability::try_from(t) {
            if let Some(JsonValue::Str(n)) = t.get("name") {
                entries.push((n.clone(), c));
            }
        }
    }
    CapabilityRegistry::build(entries)
}

fn fs() -> FsSnapshot {
    let mut f = FsSnapshot::new();
    f.add("/work".to_string(), true);
    f.add("/work/a.txt".to_string(), false);
    f.add("/work/src".to_string(), true);
    f
}

fn task(action: ActionClass, path: Option<&str>, deps: Vec<usize>) -> TaskIntent {
    TaskIntent {
        action,
        relative_path: path.map(|p| PathSource::Explicit(p.to_string())),
        depends_on: deps,
        write_disposition: None,
    }
}

fn hint_member<'a>(h: &'a Option<JsonValue>, key: &str) -> Option<&'a str> {
    match h {
        Some(v) => v.get_str(key),
        None => None,
    }
}

#[test]
fn action_names_parse_exactly() {
    assert_eq!(ActionClass::from_str("ReadFile"), Some(ActionClass::ReadFile));
    assert_eq!(ActionClass::from_str("readfile"), None);
    assert_eq!(WriteDisposition::from_str("CreateNew"), Some(WriteDisposition::CreateNew));
    assert_eq!(ActionClass::DebugCode.capability(), CapabilityKind::Read);
}

#[test]
fn capability_kinds_match_artifacts() {
    assert!(CapabilityKind::Edit.matches(&ArtifactKind::FileSnapshot));
    assert!(CapabilityKind::Search.matches(&ArtifactKind::FetchedContent));
    assert!(!CapabilityKind::Execute.matches(&ArtifactKind::FileSnapshot));
}

#[test]
fn tools_are_classified_by_name_or_arguments() {
    let read = ToolCapability::try_from(&tool("Read", &["file_path"])).unwrap();
    assert_eq!(read.kind, CapabilityKind::Read);
    assert_eq!(read.produces, &["file_content"]);
    let search = ToolCapability::try_from(&tool("websearch", &[])).unwrap();
    assert_eq!(search.kind, CapabilityKind::Search);
    assert_eq!(search.produces, &["search_results"]);
    assert!(ToolCapability::try_from(&tool("WebFetch", &["url"])).is_err());
    assert!(ToolCapability::try_from(&tool("Mystery", &["nothing"])).is_err());
}

#[test]
fn intent_plan_reads_a_model_answer() {
    let raw = "```json\n{\"action\": \"WriteFile\"}\n```";
    assert_eq!(IntentPlan::strip_fences(raw), "{\"action\": \"WriteFile\"}");
    let v = obj(vec![
        ("action", s("WriteFile")),
        ("task_kind", s("Knowledge")),
        ("relative_path", s(" notes/<i>x</i>.md ")),
        ("write_disposition", s("Bogus")),
    ]);
    let p = IntentPlan::from_json(&v).unwrap();
    assert_eq!(p.action, ActionClass::WriteFile);
    assert_eq!(p.task_kind, TaskKind::Knowledge);
    assert_eq!(p.path.as_ref().unwrap().as_str(), "notes/x.md");
    assert_eq!(p.write_disposition, Some(WriteDisposition::EnsureExists));
    let e = IntentPlan::from_json(&obj(vec![("action", s("EditFile"))])).unwrap();
    assert_eq!(e.write_disposition, Some(WriteDisposition::ModifyExisting));
    assert_eq!(e.task_kind, TaskKind::Procedural);
    assert!(IntentPlan::from_json(&obj(vec![("action", s("Fly"))])).is_none());
}

#[test]
fn from_plan_makes_one_task() {
    let plan = IntentPlan {
        action: ActionClass::ReadFile,
        task_kind: TaskKind::Procedural,
        path: Some(PathSource::Cwd),
        write_disposition: None,
    };
    let d = TaskDecomposition::from_plan(plan);
    assert_eq!(d.tasks.len(), 1);
    assert_eq!(d.tasks[0].relative_path.as_ref().unwrap().as_str(), ".");
    assert!(d.tasks[0].depends_on.is_empty());
}

#[test]
fn semantic_op_follows_the_action_and_the_target() {
    let st = clounar::validation::check("a.ipynb", "/work", &fs());
    assert_eq!(SemanticOp::from_action(&ActionClass::EditFile, None, &st), Some(SemanticOp::NotebookModifyFile));
    let st = clounar::validation::check("new.txt", "/work", &fs());
    assert_eq!(SemanticOp::from_action(&ActionClass::WriteFile, None, &st), Some(SemanticOp::CreateFile));
    assert_eq!(SemanticOp::from_action(&ActionClass::WebSearch, None, &st), None);
}

#[test]
fn read_task_resolves_to_read_step() {
    let ts = tools();
    let reg = registry(&ts);
    let t = task(ActionClass::ReadFile, Some("a.txt"), vec![]);
    let steps = t.resolve_steps(&reg, &ts, "/work", &fs(), None);
    assert_eq!(steps.len(), 1);
    assert_eq!(steps[0].tool_name, "Read");
    assert_eq!(hint_member(&steps[0].args_hint, "file_path"), Some("/work/a.txt"));
    let p = steps[0].produces_artifact.as_ref().unwrap();
    assert_eq!(p.ref_name, "file_content");
    assert_eq!(p.kind, ArtifactKind::FileSnapshot);
}

#[test]
fn read_of_directory_lists_it() {
    let ts = tools();
    let reg = registry(&ts);
    let t = task(ActionClass::ReadFile, Some("src"), vec![]);
    let steps = t.resolve_steps(&reg, &ts, "/work", &fs(), None);
    assert_eq!(steps.len(), 1);
    assert_eq!(steps[0].tool_name, "Bash");
    assert_eq!(hint_member(&steps[0].args_hint, "command"), Some("ls -la /work/src"));
}

#[test]
fn steps_of_tools_not_offered_are_dropped() {
    let ts = vec![tool("Edit", &["file_path", "old_string", "new_string"])];
    let reg = registry(&ts);
    let t = task(ActionClass::EditFile, Some("a.txt"), vec![]);
    let steps = t.resolve_steps(&reg, &ts, "/work", &fs(), None);
    assert_eq!(steps.len(), 1);
    assert_eq!(steps[0].tool_name, "Edit");
    assert_eq!(steps[0].requires_artifact, vec!["file_content".to_string()]);
}

#[test]
fn command_falls_back_to_an_executing_tool_with_the_test_command() {
    let ts = tools();
    let reg = registry(&ts);
    let t = task(ActionClass::ExecuteCommand, None, vec![]);
    let steps = t.resolve_steps(&reg, &ts, "/work", &fs(), Some("cargo test"));
    assert_eq!(steps.len(), 1);
    assert_eq!(steps[0].tool_name, "Bash");
    assert_eq!(hint_member(&steps[0].args_hint, "command"), Some("cargo test"));
    let p = steps[0].produces_artifact.as_ref().unwrap();
    assert_eq!(p.ref_name, "command_output");
    assert_eq!(p.kind, ArtifactKind::ExecutionOutput);
    assert!(t.resolve_steps(&reg, &ts, "/work", &fs(), None).is_empty());
}

#[test]
fn fallback_is_the_first_offered_tool_of_the_capability() {
    let ts = tools();
    let reg = registry(&ts);
    let step = reg.fallback(&ActionClass::ReadFile, &ts).unwrap();
    assert_eq!(step.tool_name, "Read");
    assert!(step.args_hint.is_none());
    assert!(reg.fallback(&ActionClass::WebSearch, &ts).is_none());
    assert!(reg.fallback(&ActionClass::ReadFile, &[]).is_none());
}

#[test]
fn registry_groups_names_by_kind() {
    let ts = vec![tool("Read", &["file_path"]), tool("Cat", &["file_path"]), tool("Bash", &["command"])];
    let reg = registry(&ts);
    let reads = reg.by_kind.iter().find(|(k, _)| *k == CapabilityKind::Read).unwrap();
    assert_eq!(reads.1, vec!["Read".to_string(), "Cat".to_string()]);
    assert_eq!(reg.by_kind.len(), 2);
}

#[test]
fn build_chains_steps_and_dependent_tasks() {
    let ts = tools();
    let reg = registry(&ts);
    let d = TaskDecomposition {
        tasks: vec![
            task(ActionClass::ReadFile, Some("a.txt"), vec![]),
            task(ActionClass::EditFile, Some("a.txt"), vec![0]),
        ],
    };
    let g = d.build(&reg, &ts, "/work", &fs(), None).unwrap();
    assert_eq!(g.ordering, vec![1, 2, 3]);
    assert_eq!(g.nodes[&1].tool_name, "Read");
    assert_eq!(g.nodes[&2].tool_name, "Read");
    assert_eq!(g.nodes[&3].tool_name, "Edit");
    assert_eq!(g.nodes[&3].kind, NodeKind::Execution);
    assert!(g.dependencies.get(&1).is_none());
    assert_eq!(g.dependencies[&2], vec![1]);
    assert_eq!(g.dependencies[&3], vec![2]);
    // A built graph has no cycle and each artifact is produced before use.
    assert!(g.validate(&ContractContext).is_ok());
    assert!(g.validate_structure().is_ok());
}

#[test]
fn build_refuses_a_task_without_steps() {
    let ts = tools();
    let reg = registry(&ts);
    let d = TaskDecomposition {
        tasks: vec![
            task(ActionClass::ReadFile, Some("a.txt"), vec![]),
            task(ActionClass::WebSearch, None, vec![]),
        ],
    };
    match d.build(&reg, &ts, "/work", &fs(), None) {
        Err(ExecutionContractError::NoToolForAction(a)) => assert_eq!(a, ActionClass::WebSearch),
        other => panic!("unexpected: {:?}", other.map(|g| g.ordering)),
    }
}

#[test]
fn build_stops_at_a_step_that_needs_the_user() {
    let ts = vec![tool("AskUserQuestion", &["command"])];
    let reg = registry(&ts);
    let d = TaskDecomposition {
        tasks: vec![
            task(ActionClass::ExecuteCommand, None, vec![]),
            task(ActionClass::WebSearch, None, vec![]),
        ],
    };
    let g = d.build(&reg, &ts, "/work", &fs(), Some("make")).unwrap();
    assert_eq!(g.ordering, vec![1]);
    assert_eq!(g.nodes[&1].kind, NodeKind::Interaction);
}

#[test]
fn intent_plan_parses_a_fenced_answer() {
    let plan = IntentPlan::parse("```json\n{\"action\": \"ReadFile\", \"relative_path\": \"src/main.rs\"}\n```").unwrap();
    assert_eq!(plan.action, ActionClass::ReadFile);
    assert!(IntentPlan::parse("not json at all").is_none());
    assert!(IntentPlan::parse("{\"action\": \"Dance\"}").is_none());
}
