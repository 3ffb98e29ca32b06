use clounar::anthropic::UserSegment;
use clounar::config::{default_log_level, default_true, Config, PerplexityConfig, ServerConfig};
use clounar::json::JsonValue;
use clounar::planner::execution::graph::CompressedTool;
use clounar::prompts::fill::args_schema;
use clounar::prompts::utils::{combined_description, extract_schema_descriptions};
use clounar::prompts::{PromptContext, PromptKind, PromptsConfig};
use clounar::state::EnvironmentContext;

fn s(x: &str) -> JsonValue {
    JsonValue::Str(x.to_string())
}

fn obj(fields: Vec<(&str, JsonValue)>) -> JsonValue {
    JsonValue::Object(fields.into_iter().map(|(k, v)| (k.to_string(), v)).collect())
}

fn show(v: &JsonValue) -> String {
    match v {
        JsonValue::Null => "null".to_string(),
        JsonValue::Bool(b) => b.to_string(),
        JsonValue::Number(n) => n.clone(),
        JsonValue::Str(t) => format!("\"{}\"", t),
        JsonValue::Array(items) => {
            let parts: Vec<String> = items.iter().map(show).collect();
            format!("[{}]", parts.join(","))
        }
        JsonValue::Object(fields) => {
            let parts: Vec<String> =
                fields.iter().map(|(k, v)| format!("\"{}\":{}", k, show(v))).collect();
            format!("{{{}}}", parts.join(","))
        }
    }
}

fn templates() -> PromptsConfig {
    PromptsConfig {
        compress: "C {tool_name}: {combined}".to_string(),
        args: "A {user_query}|{env_context}|{file_artifacts}|{resolved_args}|{rules}|{schema}".to_string(),
        tool_result: "T {user_query}|{tool_name}|{tool_input}|{tool_result}".to_string(),
        intent_classify: "I {user_query}".to_string(),
        hash_select: "H {user_query}|{candidates}".to_string(),
        web_search: "W {query}".to_string(),
    }
}

fn read_tool() -> JsonValue {
    obj(vec![
        ("name", s("Read")),
        ("description", s("Reads a file")),
        (
            "input_schema",
            obj(vec![
                ("type", s("object")),
                (
                    "properties",
                    obj(vec![
                        ("file_path", obj(vec![("type", s("string")), ("description", s("Path"))])),
                        ("limit", obj(vec![("type", s("number")), ("description", s(""))])),
                    ]),
                ),
            ]),
        ),
    ])
}

fn ctx<'a>(
    prompts: &'a PromptsConfig,
    query: &'a [UserSegment],
    tool: Option<&'a JsonValue>,
    compressed: Option<&'a CompressedTool>,
    env: Option<&'a EnvironmentContext>,
    refs: &'a [(String, String)],
) -> PromptContext<'a> {
    PromptContext {
        tool,
        compressed,
        user_query: query,
        env,
        artifact_refs: refs,
        args_hint: None,
        prompts,
    }
}

#[test]
fn valid_templates_pass() {
    assert!(templates().validate().is_ok());
}

#[test]
fn missing_placeholder_is_named() {
    let mut p = templates();
    p.args = "A {user_query} {env_context} {file_artifacts} {rules} {schema}".to_string();
    assert_eq!(
        p.validate().unwrap_err(),
        "prompts.args is missing required placeholder {resolved_args}"
    );
    let mut q = templates();
    q.compress = "nothing".to_string();
    q.web_search = "nothing".to_string();
    assert_eq!(
        q.validate().unwrap_err(),
        "prompts.compress is missing required placeholder {tool_name}"
    );
    let mut w = templates();
    w.web_search = "no query".to_string();
    assert_eq!(w.validate().unwrap_err(), "prompts.web_search is missing required placeholder {query}");
}

#[test]
fn config_check_uses_the_templates() {
    let mut cfg = Config {
        perplexity: PerplexityConfig {
            default_mode: "concise".to_string(),
            default_model: "turbo".to_string(),
            incognito: default_true(),
        },
        server: ServerConfig { port: 8080, host: "127.0.0.1".to_string(), log_level: default_log_level() },
        prompts: templates(),
    };
    assert_eq!(cfg.server.log_level, "info");
    assert!(cfg.perplexity.incognito);
    assert!(cfg.check().is_ok());
    cfg.prompts.hash_select = "{user_query}".to_string();
    assert_eq!(
        cfg.check().unwrap_err(),
        "prompts.hash_select is missing required placeholder {candidates}"
    );
}

#[test]
fn schema_descriptions_depth_first() {
    let mut out = vec!["x".to_string()];
    extract_schema_descriptions(&read_tool(), &mut out);
    assert_eq!(out, vec!["x".to_string(), "Reads a file".to_string(), "Path".to_string()]);
    assert_eq!(combined_description(&read_tool()), "Reads a file\nPath");
    let schema_only = obj(vec![("description", s("Top")), ("input_schema", obj(vec![]))]);
    assert_eq!(combined_description(&schema_only), "Top");
    assert_eq!(combined_description(&obj(vec![])), "");
}

#[test]
fn args_schema_drops_known_arguments() {
    let tool = read_tool();
    assert_eq!(show(&args_schema(&obj(vec![]), None)), "{}");
    let full = args_schema(&tool, None);
    assert!(show(&full).contains("\"limit\""));
    let hint = obj(vec![("file_path", s("/a"))]);
    let cut = args_schema(&tool, Some(&hint));
    assert_eq!(
        show(&cut),
        "{\"type\":\"object\",\"properties\":{\"limit\":{\"type\":\"number\",\"description\":\"\"}}}"
    );
}

#[test]
fn compress_prompt() {
    let p = templates();
    let q: Vec<UserSegment> = vec![];
    let tool = read_tool();
    let c = ctx(&p, &q, Some(&tool), None, None, &[]);
    assert_eq!(c.build(PromptKind::Compress), "C Read: Reads a file\nPath");
}

#[test]
fn intent_and_hash_prompts_quote_the_message() {
    let p = templates();
    let q = vec![UserSegment::Text("fix it".to_string()), UserSegment::Code("x = 1".to_string())];
    let c = ctx(&p, &q, None, None, None, &[]);
    let message = "<message>\n  <text>fix it</text>\n  <code>x = 1</code>\n</message>";
    assert_eq!(c.build(PromptKind::IntentClassify), format!("I {}", message));
    assert_eq!(
        c.build(PromptKind::HashSelect { candidates: "abc" }),
        format!("H {}|abc", message)
    );
}

#[test]
fn tool_result_prompt() {
    let p = templates();
    let q = vec![UserSegment::ToolResult("out".to_string())];
    let c = ctx(&p, &q, None, None, None, &[]);
    let r = c.build(PromptKind::ToolResult {
        tool_name: "Bash",
        tool_input_text: "{\"command\":\"ls\"}",
        tool_result: "a.txt",
    });
    assert_eq!(
        r,
        "T <message>\n  <tool_result>out</tool_result>\n</message>|Bash|{\"command\":\"ls\"}|<tool_result>\na.txt\n</tool_result>"
    );
}

#[test]
fn args_prompt_fills_every_part() {
    let p = templates();
    let q = vec![UserSegment::Text("read a".to_string())];
    let tool = read_tool();
    let compressed = CompressedTool {
        capabilities: vec!["reads files".to_string()],
        limits: vec!["text only".to_string()],
        inputs: vec![],
        outputs: vec![],
    };
    let mut env = EnvironmentContext::default();
    env.cwd = "/w".to_string();
    env.platform = "linux".to_string();
    env.shell = "bash".to_string();
    let refs = vec![
        ("n1.file_content".to_string(), "hello".to_string()),
        ("n2.output".to_string(), "skip".to_string()),
    ];
    let c = ctx(&p, &q, Some(&tool), Some(&compressed), Some(&env), &refs);
    let r = c.build(PromptKind::Args { schema_text: "{}", hint_text: Some("{\"a\":1}") });
    assert_eq!(
        r,
        "A <message>\n  <text>read a</text>\n</message>|Environment:\n- cwd: /w\n- platform: linux\n- shell: bash\n|<artifact ref=\"n1.file_content\">\nhello\n</artifact>|Known values (for context):\n{\"a\":1}\n|reads files\nLIMIT: text only|{}"
    );
    let empty_env = EnvironmentContext::default();
    let c2 = ctx(&p, &q, Some(&tool), Some(&compressed), Some(&empty_env), &[]);
    let r2 = c2.build(PromptKind::Args { schema_text: "S", hint_text: None });
    assert_eq!(
        r2,
        "A <message>\n  <text>read a</text>\n</message>||||reads files\nLIMIT: text only|S"
    );
}
