use clounar::anthropic::{
    serialize_segments, ContentBlock, Message, MessageContent, MessagesRequest, Role, SseEvent,
    ToolResultContent, UserSegment,
};
use clounar::json::JsonValue;
use clounar::server::classify::{extract_user_query, strip_system_tags};
use clounar::server::messages::{
    apply_system_env, dispatch, inbound_tool_result, last_message_text, short_circuit,
    system_string, title_payload, title_text, Dispatch, MessageClassifier, ShortCircuit,
};
use clounar::server::{classify_request, QueryKind};
use clounar::state::EnvironmentContext;

fn s(x: &str) -> JsonValue {
    JsonValue::Str(x.to_string())
}

fn obj(fields: Vec<(&str, JsonValue)>) -> JsonValue {
    JsonValue::Object(fields.into_iter().map(|(k, v)| (k.to_string(), v)).collect())
}

fn user(text: &str) -> Message {
    Message { role: Role::User, content: MessageContent::Text(text.to_string()) }
}

fn request(messages: Vec<Message>, system: Option<JsonValue>, tools: Option<Vec<JsonValue>>) -> MessagesRequest {
    MessagesRequest {
        model: "sonnet".to_string(),
        messages,
        system,
        max_tokens: None,
        stream: None,
        tools,
        tool_choice: None,
    }
}

fn seg_text(s: &UserSegment) -> (&'static str, String) {
    match s {
        UserSegment::Text(t) => ("text", t.clone()),
        UserSegment::Code(c) => ("code", c.clone()),
        UserSegment::ToolResult(r) => ("tool", r.clone()),
    }
}

#[test]
fn system_tags_are_stripped() {
    assert_eq!(strip_system_tags("a<system-reminder>x</system-reminder>b"), "ab");
    assert_eq!(strip_system_tags("keep<task-notification>drop"), "keep");
    assert_eq!(strip_system_tags("<tool-use-id>1</tool-use-id>z<tool-use-id>2</tool-use-id>"), "z");
}

#[test]
fn user_query_is_the_last_user_message_that_says_something() {
    let blocks = vec![
        ContentBlock::Text { text: "  ```rust\nfn a() {}\n```  ".to_string() },
        ContentBlock::ToolResult {
            tool_use_id: "t".to_string(),
            content: ToolResultContent::Parts(vec![obj(vec![("text", s("r1"))]), obj(vec![("text", s("r2"))])]),
        },
        ContentBlock::ToolResult { tool_use_id: "u".to_string(), content: ToolResultContent::Text("<task-notification>x".to_string()) },
        ContentBlock::Text { text: "<system-reminder>only</system-reminder>".to_string() },
    ];
    let req = request(
        vec![
            user("first"),
            Message { role: Role::User, content: MessageContent::Blocks(blocks) },
            Message { role: Role::Assistant, content: MessageContent::Text("ok".to_string()) },
            user("<system-reminder>noise</system-reminder>  "),
        ],
        None,
        None,
    );
    let q: Vec<(&str, String)> = extract_user_query(&req).iter().map(seg_text).collect();
    assert_eq!(q, vec![("code", "```rust\nfn a() {}\n```".to_string()), ("tool", "r1\nr2".to_string())]);
    assert_eq!(
        serialize_segments(&extract_user_query(&req)),
        "<message>\n  <code>```rust\nfn a() {}\n```</code>\n  <tool_result>r1\nr2</tool_result>\n</message>"
    );
    assert_eq!(serialize_segments(&[]), "<message>\n\n</message>");
}

#[test]
fn requests_with_tools_select_a_tool() {
    let req = request(vec![user("do it")], None, Some(vec![obj(vec![("name", s("Read"))])]));
    match classify_request(&req) {
        QueryKind::ToolSelection { user_query, tools } => {
            assert_eq!(user_query.len(), 1);
            assert_eq!(tools.len(), 1);
            assert_eq!(tools[0].get_str("name"), Some("Read"));
        },
        QueryKind::Plain(_) => panic!("expected a tool selection"),
    }
}

#[test]
fn plain_requests_join_system_and_messages() {
    let system = JsonValue::Array(vec![obj(vec![("text", s("sys1"))]), obj(vec![("text", s("sys2"))])]);
    let blocks = vec![
        ContentBlock::Text { text: "b1".to_string() },
        ContentBlock::ToolUse { id: "i".to_string(), name: "n".to_string(), input: JsonValue::Null },
        ContentBlock::ToolResult { tool_use_id: "t".to_string(), content: ToolResultContent::Other("42".to_string()) },
    ];
    let req = request(
        vec![user("hello"), user(""), Message { role: Role::Assistant, content: MessageContent::Blocks(blocks) }],
        Some(system),
        Some(vec![]),
    );
    match classify_request(&req) {
        QueryKind::Plain(q) => assert_eq!(q, "sys1\nsys2\n\nhello\n\nb1\n42"),
        QueryKind::ToolSelection { .. } => panic!("expected a plain query"),
    }
}

#[test]
fn housekeeping_requests_are_answered_at_once() {
    let sys = Some("Generate a concise, sentence-case title for this".to_string());
    let msg = Some("Refactor the parser so that it handles nested blocks correctly".to_string());
    assert!(MessageClassifier::title().matches(&sys, &None));
    assert!(!MessageClassifier::title().matches(&None, &msg));
    match short_circuit(&sys, &msg) {
        Some(ShortCircuit::Title(t)) => assert_eq!(t, "Refactor the parser so that it handles n"),
        _ => panic!("expected a title"),
    }
    assert_eq!(title_text(&None), "Coding session");
    assert_eq!(title_payload("T"), "{\"title\":\"T\"}");
    let sug = Some("x [SUGGESTION MODE: on]".to_string());
    assert!(matches!(short_circuit(&None, &sug), Some(ShortCircuit::Suggestion)));
    assert!(short_circuit(&None, &msg).is_none());
}

#[test]
fn system_and_last_message_texts() {
    let sys = Some(JsonValue::Array(vec![obj(vec![("text", s("a"))]), obj(vec![("type", s("x"))]), obj(vec![("text", s("b"))])]));
    assert_eq!(system_string(&sys), Some("a\nb".to_string()));
    assert_eq!(system_string(&Some(JsonValue::Null)), Some(String::new()));
    assert_eq!(system_string(&None), None);
    let req = request(
        vec![Message {
            role: Role::User,
            content: MessageContent::Blocks(vec![
                ContentBlock::ToolResult { tool_use_id: "t".to_string(), content: ToolResultContent::Text("res".to_string()) },
                ContentBlock::Text { text: "words".to_string() },
            ]),
        }],
        None,
        None,
    );
    assert_eq!(last_message_text(&req), Some("words".to_string()));
    assert_eq!(inbound_tool_result(&req), Some("res".to_string()));
    assert_eq!(inbound_tool_result(&request(vec![user("x")], None, None)), None);
}

#[test]
fn the_environment_is_learned_from_the_system_prompt() {
    let text = "intro\n - Primary working directory: /home/u/proj \n- Platform: linux\nShell: zsh\r\nPlatform: darwin";
    let sys = Some(JsonValue::Array(vec![obj(vec![("text", s(text))])]));
    let mut env = EnvironmentContext::default();
    apply_system_env(&mut env, &sys);
    assert_eq!(env.cwd, "/home/u/proj");
    assert_eq!(env.platform, "darwin");
    assert_eq!(env.shell, "zsh");
    let mut env2 = EnvironmentContext::default();
    apply_system_env(&mut env2, &Some(s(text)));
    assert_eq!(env2.cwd, "");
}

#[test]
fn dispatch_sends_results_to_the_waiting_call() {
    assert_eq!(dispatch(true, false, true), Dispatch::ToolResult);
    assert_eq!(dispatch(true, true, false), Dispatch::Select);
    assert_eq!(dispatch(false, true, false), Dispatch::Echo);
    assert_eq!(dispatch(false, false, true), Dispatch::Echo);
    assert_eq!(dispatch(false, false, false), Dispatch::Select);
}

#[test]
fn events_render_as_server_sent_events() {
    assert_eq!(
        SseEvent::TextDelta("say \"hi\"\n\u{1}").render(),
        "event: content_block_delta\ndata: {\"delta\":{\"text\":\"say \\\"hi\\\"\\n\\u0001\",\"type\":\"text_delta\"},\"index\":0,\"type\":\"content_block_delta\"}\n\n"
    );
    assert_eq!(
        SseEvent::MessageStart { id: "m1", model: "x" }.render(),
        "event: message_start\ndata: {\"message\":{\"content\":[],\"id\":\"m1\",\"model\":\"x\",\"role\":\"assistant\",\"stop_reason\":null,\"type\":\"message\",\"usage\":{\"input_tokens\":0}},\"type\":\"message_start\"}\n\n"
    );
    assert_eq!(SseEvent::MessageStop.render(), "event: message_stop\ndata: {\"type\":\"message_stop\"}\n\n");
    assert_eq!(
        SseEvent::MessageDeltaTool.render(),
        "event: message_delta\ndata: {\"delta\":{\"stop_reason\":\"tool_use\",\"stop_sequence\":null},\"type\":\"message_delta\",\"usage\":{\"output_tokens\":0}}\n\n"
    );
    assert_eq!(
        SseEvent::ToolUseBlockStart { id: "t1", name: "Read" }.render(),
        "event: content_block_start\ndata: {\"content_block\":{\"id\":\"t1\",\"input\":{},\"name\":\"Read\",\"type\":\"tool_use\"},\"index\":0,\"type\":\"content_block_start\"}\n\n"
    );
}

#[test]
fn rendered_events_match_serde_json() {
    let partial = "{\"a\":\"\\\\\"}\t\u{7f}é";
    let mut delta = serde_json::Map::new();
    delta.insert("type".to_string(), serde_json::Value::String("input_json_delta".to_string()));
    delta.insert("partial_json".to_string(), serde_json::Value::String(partial.to_string()));
    let mut top = serde_json::Map::new();
    top.insert("type".to_string(), serde_json::Value::String("content_block_delta".to_string()));
    top.insert("index".to_string(), serde_json::Value::from(0));
    top.insert("delta".to_string(), serde_json::Value::Object(delta));
    let expected = format!(
        "event: content_block_delta\ndata: {}\n\n",
        serde_json::to_string(&serde_json::Value::Object(top)).unwrap()
    );
    assert_eq!(SseEvent::ToolUseDelta(partial).render(), expected);
}

fn show(v: &JsonValue) -> String {
    match v {
        JsonValue::Null => "null".to_string(),
        JsonValue::Bool(b) => b.to_string(),
        JsonValue::Number(n) => n.clone(),
        JsonValue::Str(t) => format!("\"{}\"", t),
        JsonValue::Array(items) => {
            let parts: Vec<String> = items.iter().map(show).collect();
            format!("[{}]", parts.join(","))
        }
        JsonValue::Object(fields) => {
            let parts: Vec<String> =
                fields.iter().map(|(k, v)| format!("\"{}\":{}", k, show(v))).collect();
            format!("{{{}}}", parts.join(","))
        }
    }
}

#[test]
fn immediate_answers_have_the_message_shape() {
    assert_eq!(show(&ShortCircuit::Echo.respond("m")), "{}");
    assert_eq!(
        show(&ShortCircuit::Suggestion.respond("m")),
        "{\"content\":[{\"text\":\"\",\"type\":\"text\"}],\"id\":\"msg_suggestion\",\"model\":\"m\",\"role\":\"assistant\",\"stop_reason\":\"end_turn\",\"type\":\"message\",\"usage\":{\"input_tokens\":0,\"output_tokens\":0}}"
    );
    let title = ShortCircuit::Title("Fix bug".to_string()).respond("m");
    let text = show(&title);
    assert!(text.starts_with("{\"content\":[{\"text\":\"{\"title\":\"Fix bug\"}\",\"type\":\"text\"}],\"id\":\"msg_title\""));
}

#[test]
fn rendered_events_keep_payload_line_feeds_escaped() {
    let text = SseEvent::TextDelta("a\nb\n\nc").render();
    assert_eq!(text.matches('\n').count(), 3);
    assert!(text.contains("\"type\":\"content_block_delta\""));
    let stop = SseEvent::MessageDeltaTool.render();
    assert_eq!(stop.matches('\n').count(), 3);
    assert!(stop.contains("\"type\":\"message_delta\""));
}
