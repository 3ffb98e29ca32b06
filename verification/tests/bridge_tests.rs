use clounar::bridge::cache::{CacheStep, CachedToolEntry, ToolCache};
use clounar::prompts::PromptsConfig;
use clounar::bridge::{ToolEntry, ToolKind, ToolStatus};
use clounar::json::JsonValue;
use clounar::planner::{CapabilityKind, CompressedTool, ToolCapability};

fn s(x: &str) -> JsonValue {
    JsonValue::Str(x.to_string())
}

fn obj(fields: Vec<(&str, JsonValue)>) -> JsonValue {
    JsonValue::Object(fields.into_iter().map(|(k, v)| (k.to_string(), v)).collect())
}

fn named(name: &str) -> JsonValue {
    obj(vec![("name", s(name))])
}

fn compressed(cap: &str) -> CompressedTool {
    CompressedTool {
        capabilities: vec![cap.to_string()],
        limits: vec![],
        inputs: vec!["in".to_string()],
        outputs: vec![],
    }
}

#[test]
fn tool_names_are_normalized() {
    assert_eq!(ToolEntry::normalize("  **`Read`** the file\nmore"), "Read");
    assert_eq!(ToolEntry::normalize("\"bash\""), "bash");
    assert_eq!(ToolEntry::normalize("'Edit' tool"), "Edit");
    assert_eq!(ToolEntry::normalize("   "), "");
}

#[test]
fn table_entries_are_found_by_name() {
    let e = ToolEntry::from_name("  `read` ").unwrap();
    assert_eq!(e.kind, ToolKind::Read);
    assert_eq!(e.status, ToolStatus::Active);
    assert_eq!(e.file_key, Some("file_path"));
    assert_eq!(ToolEntry::from_name("WEBSEARCH").unwrap().status, ToolStatus::Override);
    assert_eq!(ToolEntry::from_name("Monitor").unwrap().status, ToolStatus::Excluded);
    assert!(ToolEntry::from_name("Unknown").is_none());
    assert_eq!(ToolKind::TaskStop.as_str(), "TaskStop");
}

#[test]
fn tools_are_found_among_offered_ones() {
    let tools = vec![named("Grep"), named("read"), named("Read")];
    let t = ToolEntry::find_in_tools("READ", &tools).unwrap();
    assert_eq!(t.get_str("name"), Some("read"));
    assert!(ToolEntry::find_in_tools("Write", &tools).is_none());
    let copy = ToolEntry::resolve("*grep*", &tools).unwrap();
    assert_eq!(copy.get_str("name"), Some("Grep"));
    assert!(ToolEntry::resolve("Bash", &tools).is_none());
}

#[test]
fn string_arguments_are_unescaped() {
    let write = ToolEntry::from_name("Write").unwrap();
    let mut args = obj(vec![
        ("file_path", s("/a\\nb")),
        ("content", s("line1\\nline2\\tx\\ry")),
        ("extra", s("keep\\n")),
    ]);
    write.normalize_args(&mut args);
    assert_eq!(args.get_str("content"), Some("line1\nline2\tx\ry"));
    assert_eq!(args.get_str("file_path"), Some("/a\\nb"));
    assert_eq!(args.get_str("extra"), Some("keep\\n"));
    let mut not_object = s("x\\n");
    write.normalize_args(&mut not_object);
    assert_eq!(not_object.as_str(), Some("x\\n"));
}

#[test]
fn arguments_are_checked_by_the_table() {
    let read = ToolEntry::from_name("Read").unwrap();
    assert!(read.validate_args(&obj(vec![("file_path", s("/a"))])).is_ok());
    let missing = read.validate_args(&obj(vec![])).unwrap_err();
    assert_eq!(missing.to_string(), "required argument 'file_path' is missing");
}

#[test]
fn excluded_tools_do_not_participate() {
    assert!(ToolCache::participates(&named("Read")));
    assert!(ToolCache::participates(&named("mcp__custom")));
    assert!(!ToolCache::participates(&named("Monitor")));
    assert!(!ToolCache::participates(&named("webfetch")));
    assert!(ToolCache::participates(&obj(vec![])));
}

#[test]
fn cache_keys_of_a_tool() {
    let tool = obj(vec![
        ("name", s("Edit")),
        ("description", s("Edits")),
        (
            "input_schema",
            obj(vec![(
                "properties",
                obj(vec![("old", obj(vec![])), ("file", obj(vec![])), ("new", obj(vec![]))]),
            )]),
        ),
    ]);
    assert_eq!(ToolCache::description_of(&tool), "Edits");
    assert_eq!(ToolCache::description_of(&named("x")), "");
    assert_eq!(ToolCache::property_names_of(&tool), vec!["old", "file", "new"]);
    assert_eq!(ToolCache::sorted_property_names(&tool), vec!["file", "new", "old"]);
    assert!(ToolCache::sorted_property_names(&named("x")).is_empty());
    assert!(ToolCache::is_hit(Some("abc"), "abc"));
    assert!(!ToolCache::is_hit(Some("abc"), "abd"));
    assert!(!ToolCache::is_hit(None, "abc"));
}

#[test]
fn assembled_cache_keeps_the_last_entry_of_a_name() {
    let read_cap = ToolCapability { kind: CapabilityKind::Read, produces: &["file_content"], requires: &[] };
    let exec_cap = ToolCapability { kind: CapabilityKind::Execute, produces: &[], requires: &[] };
    let entries = vec![
        ("Read".to_string(), CachedToolEntry { compressed: compressed("first"), capability: None }),
        ("Bash".to_string(), CachedToolEntry { compressed: compressed("runs"), capability: Some(exec_cap) }),
        ("Read".to_string(), CachedToolEntry { compressed: compressed("reads"), capability: Some(read_cap) }),
        ("Note".to_string(), CachedToolEntry { compressed: compressed("notes"), capability: None }),
    ];
    let cache = ToolCache::assemble(entries);
    assert_eq!(cache.map.len(), 3);
    assert_eq!(cache.compressed_for("Read").unwrap().capabilities, vec!["reads"]);
    assert_eq!(cache.compressed_for("Note").unwrap().inputs, vec!["in"]);
    assert!(cache.compressed_for("Grep").is_none());
    assert_eq!(cache.registry.by_name.len(), 2);
    assert!(cache.registry.by_name.get("Read").is_some());
    assert!(cache.registry.by_name.get("Note").is_none());
    let kinds: &Vec<(CapabilityKind, Vec<String>)> = &cache.registry.by_kind;
    assert!(kinds.contains(&(CapabilityKind::Read, vec!["Read".to_string()])));
    assert!(kinds.contains(&(CapabilityKind::Execute, vec!["Bash".to_string()])));
}

#[test]
fn compressed_form_comes_from_the_built_cache() {
    assert!(ToolEntry::resolve_compressed(None, "Read").is_none());
    let entries = vec![(
        "Read".to_string(),
        CachedToolEntry { compressed: compressed("reads"), capability: None },
    )];
    let cache = ToolCache::assemble(entries);
    let c = ToolEntry::resolve_compressed(Some(&cache), "Read").unwrap();
    assert_eq!(c.capabilities, vec!["reads"]);
    assert!(ToolEntry::resolve_compressed(Some(&cache), "Bash").is_none());
}

fn templates() -> PromptsConfig {
    PromptsConfig {
        compress: "Compress {tool_name}: {combined}".to_string(),
        args: String::new(),
        tool_result: String::new(),
        intent_classify: String::new(),
        hash_select: String::new(),
        web_search: String::new(),
    }
}

#[test]
fn cache_steps_for_offered_tools() {
    let p = templates();
    assert!(matches!(ToolCache::step_for(&named("Monitor"), None, "k", &p), CacheStep::Skip));
    assert!(matches!(ToolCache::step_for(&obj(vec![]), None, "k", &p), CacheStep::Skip));
    match ToolCache::step_for(&named("Read"), Some("k"), "k", &p) {
        CacheStep::Reuse(n) => assert_eq!(n, "Read"),
        _ => panic!("expected reuse"),
    }
    let tool = obj(vec![("name", s("Grep")), ("description", s("Finds text"))]);
    match ToolCache::step_for(&tool, Some("old"), "k", &p) {
        CacheStep::Compress(n, prompt) => {
            assert_eq!(n, "Grep");
            assert_eq!(prompt, "Compress Grep: Finds text");
        }
        _ => panic!("expected compress"),
    }
}

#[test]
fn compression_replies_are_repaired() {
    let doc = ToolCache::reply_document("{capabilities: ['reads files'], limits: [], inputs: [], outputs: [],}");
    match &doc {
        JsonValue::Object(fields) => {
            let caps = fields.iter().find(|(k, _)| k == "capabilities").map(|(_, v)| v);
            match caps {
                Some(JsonValue::Array(items)) => {
                    assert_eq!(items.len(), 1);
                    assert_eq!(items[0].as_str(), Some("reads files"));
                }
                _ => panic!("expected the capabilities"),
            }
        }
        _ => panic!("expected an object"),
    }
    match ToolCache::reply_document("   ") {
        JsonValue::Object(fields) => assert!(fields.is_empty()),
        _ => panic!("expected an empty object"),
    }
}

#[test]
fn deeply_bracketed_replies_are_not_repaired() {
    let deep = "[".repeat(300);
    assert!(matches!(ToolCache::reply_document(&deep), JsonValue::Null));
    assert_eq!(clounar::json::count_open_brackets("{a: [1, {b: 2}], \"[\": 3}"), 4);
}
