use std::time::SystemTime;

use clounar::artifact::{ArtifactKind, ArtifactMetadata, ArtifactRegistry, NodeEmit};
use clounar::json::JsonValue;

fn meta(workflow: &str, path: Option<&str>) -> ArtifactMetadata {
    ArtifactMetadata {
        produced_by_node: 1,
        produced_by_tool: "Read".to_string(),
        timestamp: SystemTime::UNIX_EPOCH,
        workflow_id: workflow.to_string(),
        file_path: path.map(|p| p.to_string()),
    }
}

#[test]
fn kinds_have_their_ref_names() {
    assert_eq!(ArtifactKind::FileSnapshot.as_ref_name(), "file_content");
    assert_eq!(ArtifactKind::from_ref_name("search_results"), Some(ArtifactKind::SearchResultSet));
    assert_eq!(ArtifactKind::from_ref_name("FileSnapshot"), None);
    assert_eq!(ArtifactKind::parse_or_output("nonsense"), ArtifactKind::ExecutionOutput);
}

#[test]
fn resolve_gives_back_what_was_emitted() {
    let mut r = ArtifactRegistry::default();
    r.emit("file_content".to_string(), ArtifactKind::FileSnapshot, "a".to_string(), "one".to_string(), meta("w1", None));
    let a = r.resolve("w1", "file_content").unwrap();
    assert_eq!(a.id, "artifact:file_content:a:v1");
    assert_eq!(a.content, "one");
    assert!(r.resolve("w2", "file_content").is_none());
    r.emit("file_content".to_string(), ArtifactKind::FileSnapshot, "a".to_string(), "two".to_string(), meta("w1", None));
    let a = r.resolve("w1", "file_content").unwrap();
    assert_eq!(a.id, "artifact:file_content:a:v2");
    assert_eq!(a.content, "two");
    assert_eq!(r.ref_bindings_len("file_content"), 2);
    assert_eq!(r.ref_bindings_len("other"), 0);
}

#[test]
fn emits_under_one_name_leave_other_names_alone() {
    let mut r = ArtifactRegistry::default();
    r.emit("x".to_string(), ArtifactKind::FileSnapshot, "a".to_string(), "x1".to_string(), meta("w", None));
    r.emit("y".to_string(), ArtifactKind::ExecutionOutput, "b".to_string(), "y1".to_string(), meta("w", None));
    assert_eq!(r.resolve("w", "x").unwrap().content, "x1");
    assert_eq!(r.resolve("w", "y").unwrap().content, "y1");
}

#[test]
fn same_kind_and_name_under_two_names_share_an_id() {
    let mut r = ArtifactRegistry::default();
    r.emit("x".to_string(), ArtifactKind::FileSnapshot, "a".to_string(), "first".to_string(), meta("w", None));
    r.emit("y".to_string(), ArtifactKind::FileSnapshot, "a".to_string(), "second".to_string(), meta("w", None));
    assert_eq!(r.resolve("w", "x").unwrap().content, "second");
}

#[test]
fn clear_forgets_everything() {
    let mut r = ArtifactRegistry::default();
    r.emit("x".to_string(), ArtifactKind::FileSnapshot, "a".to_string(), "c".to_string(), meta("w", None));
    r.clear();
    assert!(r.resolve("w", "x").is_none());
    assert_eq!(r.ref_bindings_len("x"), 0);
}

#[test]
fn rebind_moves_the_file_artifact_to_a_new_workflow() {
    let mut r = ArtifactRegistry::default();
    r.emit("file_content".to_string(), ArtifactKind::FileSnapshot, "a".to_string(), "v1".to_string(), meta("w1", Some("/p")));
    r.emit("file_content".to_string(), ArtifactKind::FileSnapshot, "b".to_string(), "v2".to_string(), meta("w1", Some("/q")));
    assert!(r.rebind("file_content", "/p", "w2"));
    let a = r.resolve("w2", "file_content").unwrap();
    assert_eq!(a.content, "v1");
    assert_eq!(a.metadata.workflow_id, "w2");
    assert_eq!(r.ref_bindings_len("file_content"), 3);
    assert!(!r.rebind("file_content", "/none", "w3"));
    assert_eq!(r.ref_bindings_len("file_content"), 3);
}

#[test]
fn node_output_is_recorded_under_each_name() {
    let mut r = ArtifactRegistry::default();
    let input = JsonValue::Object(vec![("file_path".to_string(), JsonValue::Str("/src/a.rs".to_string()))]);
    let specs = vec![("file_content".to_string(), "file_content"), ("log".to_string(), "unknown_kind")];
    r.emit_for_node(NodeEmit {
        specs: &specs,
        node_id: 4,
        tool_name: "Read",
        artifact_name: "a.rs",
        content: "text",
        workflow_id: "w",
        tool_input: &input,
    });
    let a = r.resolve("w", "file_content").unwrap();
    assert_eq!(a.id, "artifact:file_content:a.rs:v1");
    assert_eq!(a.metadata.file_path.as_deref(), Some("/src/a.rs"));
    assert_eq!(a.metadata.produced_by_node, 4);
    let b = r.resolve("w", "log").unwrap();
    assert_eq!(b.kind, ArtifactKind::ExecutionOutput);
    assert_eq!(b.id, "artifact:command_output:a.rs:v1");
}

#[test]
fn only_the_exact_tool_name_finds_the_file_argument() {
    let mut r = ArtifactRegistry::default();
    let input = JsonValue::Object(vec![("file_path".to_string(), JsonValue::Str("/x".to_string()))]);
    let specs = vec![("file_content".to_string(), "file_content")];
    r.emit_for_node(NodeEmit {
        specs: &specs,
        node_id: 1,
        tool_name: "read",
        artifact_name: "x",
        content: "c",
        workflow_id: "w",
        tool_input: &input,
    });
    assert!(r.resolve("w", "file_content").unwrap().metadata.file_path.is_none());
}

#[test]
fn every_kind_name_reads_back() {
    let kinds = [
        ArtifactKind::FileSnapshot,
        ArtifactKind::ExecutionOutput,
        ArtifactKind::SearchResultSet,
        ArtifactKind::FetchedContent,
        ArtifactKind::UserResponse,
        ArtifactKind::DirectoryListing,
        ArtifactKind::DiagnosticSet,
        ArtifactKind::PatchPlan,
    ];
    for k in kinds {
        assert_eq!(ArtifactKind::from_ref_name(k.as_ref_name()), Some(k));
        assert_eq!(ArtifactKind::parse_or_output(k.as_ref_name()), k);
    }
}
