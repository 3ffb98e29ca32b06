use clounar::json::JsonValue;
use clounar::perplexity::models::{list_models, models_response};
use clounar::perplexity::search::{
    is_auth_wall, new_search_body, search_body, AttemptOutcome, Feed, LineStep, RetryAction,
    SearchRetry, SearchStream, MAX_RETRIES,
};
use clounar::perplexity::{make_cookie, SearchMode, SearchParams, SubscriptionTier, ThreadState};

fn s(x: &str) -> JsonValue {
    JsonValue::Str(x.to_string())
}

fn obj(fields: Vec<(&str, JsonValue)>) -> JsonValue {
    JsonValue::Object(fields.into_iter().map(|(k, v)| (k.to_string(), v)).collect())
}

fn show(v: &JsonValue) -> String {
    match v {
        JsonValue::Null => "null".to_string(),
        JsonValue::Bool(b) => b.to_string(),
        JsonValue::Number(n) => n.clone(),
        JsonValue::Str(t) => format!("\"{}\"", t),
        JsonValue::Array(items) => {
            let parts: Vec<String> = items.iter().map(show).collect();
            format!("[{}]", parts.join(","))
        }
        JsonValue::Object(fields) => {
            let parts: Vec<String> =
                fields.iter().map(|(k, v)| format!("\"{}\":{}", k, show(v))).collect();
            format!("{{{}}}", parts.join(","))
        }
    }
}

fn params<'a>(mode: &'a SearchMode, ctx: Option<&str>) -> SearchParams<'a> {
    SearchParams {
        query: "what is rust",
        mode: "concise",
        model: "turbo",
        incognito: true,
        search_mode: mode,
        context_uuid: ctx.map(|c| c.to_string()),
    }
}

const WEB_TAIL: &str = "\"mode\":\"concise\",\"model_preference\":\"turbo\",\"is_incognito\":true,\"sources\":[\"web\"],\"source\":\"web\",\"use_schematized_api\":true,\"skip_search_enabled\":false,\"always_search_override\":true,\"supported_block_use_cases\":[],\"supported_features\":[],\"is_related_query\":false,\"expect_search_results\":true";

#[test]
fn profile_of_each_mode() {
    let web = SearchMode::Web.profile();
    assert_eq!(web.search_focus, "internet");
    assert_eq!(web.source, "web");
    assert_eq!(web.sources, &["web"]);
    assert!(!web.skip_search_enabled);
    assert!(web.always_search_override);
    assert!(web.expect_search_results);
    for mode in [SearchMode::Writing, SearchMode::Strict] {
        let p = mode.profile();
        assert_eq!(p.search_focus, "writing");
        assert_eq!(p.source, "none");
        assert_eq!(p.sources, &["none"]);
        assert!(p.skip_search_enabled);
        assert!(!p.always_search_override);
        assert!(!p.expect_search_results);
    }
}

#[test]
fn cookie_header() {
    assert_eq!(
        make_cookie("tok", "cf", true),
        "__Secure-next-auth.session-token=tok; cf_clearance=cf; pplx.is-incognito=true"
    );
    assert_eq!(
        make_cookie("a", "b", false),
        "__Secure-next-auth.session-token=a; cf_clearance=b; pplx.is-incognito=false"
    );
}

#[test]
fn tiers_parse_and_order() {
    assert_eq!(SubscriptionTier::parse_or_free("pro"), SubscriptionTier::Pro);
    assert_eq!(SubscriptionTier::parse_or_free("max"), SubscriptionTier::Max);
    assert_eq!(SubscriptionTier::parse_or_free("free"), SubscriptionTier::Free);
    assert_eq!(SubscriptionTier::parse_or_free("Enterprise"), SubscriptionTier::Free);
    assert_eq!(SubscriptionTier::default(), SubscriptionTier::Free);
    assert!(SubscriptionTier::Free.is_below(&SubscriptionTier::Pro));
    assert!(SubscriptionTier::Pro.is_below(&SubscriptionTier::Max));
    assert!(!SubscriptionTier::Max.is_below(&SubscriptionTier::Pro));
    assert!(!SubscriptionTier::Pro.is_below(&SubscriptionTier::Pro));
    assert_eq!(SubscriptionTier::Max.rank(), 2);
}

#[test]
fn body_of_a_fresh_search() {
    let mode = SearchMode::Web;
    let p = params(&mode, None);
    let body = search_body(&p, None, "F-1", "R-1");
    let expected = format!(
        "{{\"params\":{{\"attachments\":[],\"search_focus\":\"internet\",\"frontend_uuid\":\"F-1\",\"rum_session_id\":\"R-1\",\"prompt_source\":\"user\",\"query_source\":\"home\",{}}},\"query_str\":\"what is rust\",\"dsl_query\":\"what is rust\"}}",
        WEB_TAIL
    );
    assert_eq!(show(&body), expected);
}

#[test]
fn body_of_a_search_with_new_context() {
    let mode = SearchMode::Web;
    let p = params(&mode, Some("CTX"));
    let body = search_body(&p, None, "F-1", "R-1");
    let expected = format!(
        "{{\"params\":{{\"attachments\":[],\"search_focus\":\"internet\",\"frontend_uuid\":\"F-1\",\"frontend_context_uuid\":\"CTX\",\"rum_session_id\":\"R-1\",\"prompt_source\":\"user\",\"query_source\":\"home\",{}}},\"query_str\":\"what is rust\",\"dsl_query\":\"what is rust\"}}",
        WEB_TAIL
    );
    assert_eq!(show(&body), expected);
}

#[test]
fn body_of_a_follow_up() {
    let mode = SearchMode::Writing;
    let p = params(&mode, Some("CTX"));
    let thread = ThreadState {
        last_backend_uuid: "B".to_string(),
        read_write_token: "W".to_string(),
    };
    let body = search_body(&p, Some(&thread), "F-1", "R-1");
    let text = show(&body);
    assert!(text.starts_with(
        "{\"params\":{\"attachments\":[],\"search_focus\":\"writing\",\"frontend_uuid\":\"F-1\",\"last_backend_uuid\":\"B\",\"read_write_token\":\"W\",\"rum_session_id\":\"R-1\",\"followup_source\":\"link\",\"query_source\":\"followup\",\"prompt_source\":\"user\",\"mode\":\"concise\""
    ));
    assert!(text.contains("\"sources\":[\"none\"],\"source\":\"none\""));
    assert!(text.contains("\"skip_search_enabled\":true,\"always_search_override\":false"));
    assert!(text.ends_with("\"expect_search_results\":false},\"query_str\":\"what is rust\",\"dsl_query\":\"what is rust\"}"));
}

#[test]
fn thread_is_ignored_without_context() {
    let mode = SearchMode::Web;
    let p = params(&mode, None);
    let thread = ThreadState {
        last_backend_uuid: "B".to_string(),
        read_write_token: "W".to_string(),
    };
    let with = search_body(&p, Some(&thread), "F", "R");
    let without = search_body(&p, None, "F", "R");
    assert_eq!(show(&with), show(&without));
}

#[test]
fn new_body_names_the_request_with_a_uuid() {
    let mode = SearchMode::Web;
    let p = params(&mode, None);
    let (body, id) = new_search_body(&p, None, "R");
    assert_eq!(id.len(), 36);
    for (i, c) in id.chars().enumerate() {
        if i == 8 || i == 13 || i == 18 || i == 23 {
            assert_eq!(c, '-');
        } else {
            assert!(c.is_ascii_hexdigit() && !c.is_ascii_uppercase());
        }
    }
    assert!(show(&body).contains(&format!("\"frontend_uuid\":\"{}\"", id)));
    let (_, other) = new_search_body(&p, None, "R");
    assert_ne!(id, other);
}

#[test]
fn stream_splits_lines_and_reads_events() {
    let mut st = SearchStream::new();
    st.push_text("event: message\r\ndata: {\"x\":1}\npartial");
    let l1 = st.next_line().unwrap();
    assert_eq!(l1, "event: message");
    assert!(matches!(st.on_line(&l1), LineStep::Continue));
    assert_eq!(st.last_event, "message");
    let l2 = st.next_line().unwrap();
    match st.on_line(&l2) {
        LineStep::Data(d) => assert_eq!(d, "{\"x\":1}"),
        other => panic!("unexpected {:?}", other),
    }
    assert!(st.next_line().is_none());
    assert_eq!(st.buf, "partial");
    st.push_text(" line\n");
    let l3 = st.next_line().unwrap();
    assert_eq!(l3, "partial line");
    assert!(matches!(st.on_line(&l3), LineStep::Continue));
}

#[test]
fn stream_ends_at_end_event() {
    let mut st = SearchStream::new();
    assert!(matches!(st.on_line("event: end_of_stream"), LineStep::Finish));
    let mut st2 = SearchStream::new();
    st2.last_event = "end_of_stream".to_string();
    assert!(matches!(st2.on_line("data: {}"), LineStep::Finish));
}

#[test]
fn stream_message_collects_answer_and_ids() {
    let mut st = SearchStream::new();
    let msg = obj(vec![
        ("backend_uuid", s("BU")),
        ("read_write_token", s("RW")),
        (
            "blocks",
            JsonValue::Array(vec![
                obj(vec![
                    ("intended_usage", s("ask_text")),
                    (
                        "markdown_block",
                        obj(vec![("chunks", JsonValue::Array(vec![s("Hel"), JsonValue::Null, s("lo")]))]),
                    ),
                ]),
                obj(vec![
                    ("intended_usage", s("sources")),
                    ("markdown_block", obj(vec![("chunks", JsonValue::Array(vec![s("no")]))])),
                ]),
            ]),
        ),
    ]);
    let (chunks, fin) = st.on_message(&msg);
    assert_eq!(chunks, vec!["Hel".to_string(), "lo".to_string()]);
    assert!(!fin);
    assert_eq!(st.full_answer, "Hello");
    let t = st.thread_update().unwrap();
    assert_eq!(t.last_backend_uuid, "BU");
    assert_eq!(t.read_write_token, "RW");

    let last = obj(vec![("step_type", s("FINAL"))]);
    let (c2, fin2) = st.on_message(&last);
    assert!(c2.is_empty());
    assert!(fin2);
    let flag = obj(vec![("final", JsonValue::Bool(true))]);
    assert!(st.on_message(&flag).1);
    assert_eq!(st.on_close().unwrap(), "Hello");
}

#[test]
fn stream_without_content_is_an_error() {
    let st = SearchStream::new();
    assert!(st.thread_update().is_none());
    assert_eq!(
        st.on_close().unwrap_err(),
        "Stream closed without content or end_of_stream event"
    );
}

#[test]
fn auth_wall_detection() {
    assert!(is_auth_wall("Please Sign up and repeat your question"));
    assert!(is_auth_wall("you need to sign up to continue"));
    assert!(!is_auth_wall("Rust is a language"));
}

#[test]
fn retry_returns_a_good_answer() {
    let mut r = SearchRetry::new();
    assert_eq!(r.last_error, "Unknown error");
    match r.after(AttemptOutcome::Answer("fine".to_string())) {
        RetryAction::Return(a) => assert_eq!(a, "fine"),
        other => panic!("unexpected {:?}", other),
    }
    assert_eq!(r.attempt, 0);
}

#[test]
fn retry_gives_up_after_the_last_try() {
    let mut r = SearchRetry::new();
    assert!(matches!(r.after(AttemptOutcome::Failed("boom".to_string())), RetryAction::TryAgain));
    assert!(matches!(
        r.after(AttemptOutcome::Answer("Sign up and repeat".to_string())),
        RetryAction::TryAgain
    ));
    assert_eq!(r.last_error, "Session unauthenticated");
    match r.after(AttemptOutcome::ReconnectFailed("refresh failed".to_string())) {
        RetryAction::GiveUp(e) => assert_eq!(e, "refresh failed"),
        other => panic!("unexpected {:?}", other),
    }
    assert_eq!(r.attempt, MAX_RETRIES);
}

fn models_config() -> JsonValue {
    obj(vec![
        (
            "config",
            JsonValue::Array(vec![
                obj(vec![
                    ("subscription_tier", s("pro")),
                    ("non_reasoning_model", s("sonar")),
                    ("reasoning_model", s("r1")),
                    ("description", s("Pro models")),
                ]),
                obj(vec![("non_reasoning_model", s("basic"))]),
                obj(vec![("subscription_tier", s("max")), ("reasoning_model", s("deep"))]),
            ]),
        ),
        (
            "models",
            obj(vec![
                ("sonar", obj(vec![("mode", s("search")), ("provider", s("PerPlexity"))])),
                ("r1", obj(vec![("mode", s("research"))])),
                ("basic", obj(vec![("mode", s("search"))])),
                ("deep", obj(vec![("mode", s("search")), ("provider", s("OpenAI"))])),
            ]),
        ),
    ])
}

#[test]
fn models_for_each_tier() {
    let cfg = models_config();
    let free = list_models(&cfg, SubscriptionTier::Free);
    assert_eq!(
        free.iter().map(show).collect::<Vec<_>>(),
        vec!["{\"id\":\"basic\",\"object\":\"model\",\"owned_by\":\"perplexity\",\"description\":null}".to_string()]
    );
    let pro = list_models(&cfg, SubscriptionTier::Pro);
    assert_eq!(
        pro.iter().map(show).collect::<Vec<_>>(),
        vec![
            "{\"id\":\"sonar\",\"object\":\"model\",\"owned_by\":\"perplexity\",\"description\":\"Pro models\"}".to_string(),
            "{\"id\":\"basic\",\"object\":\"model\",\"owned_by\":\"perplexity\",\"description\":null}".to_string(),
        ]
    );
    let max = list_models(&cfg, SubscriptionTier::Max);
    assert_eq!(max.len(), 3);
    assert_eq!(show(&max[2]), "{\"id\":\"deep\",\"object\":\"model\",\"owned_by\":\"openai\",\"description\":null}");
}

#[test]
fn models_without_config_and_response_shape() {
    let empty = list_models(&obj(vec![]), SubscriptionTier::Max);
    assert!(empty.is_empty());
    let r = models_response(vec![s("m")]);
    assert_eq!(show(&r), "{\"object\":\"list\",\"data\":[\"m\"]}");
}

#[test]
fn data_that_is_not_json_changes_nothing() {
    let mut st = SearchStream::new();
    assert!(st.on_data("not json").is_none());
    assert_eq!(st.full_answer, "");
    let (chunks, fin) = st
        .on_data("{\"blocks\":[{\"intended_usage\":\"ask_text\",\"markdown_block\":{\"chunks\":[\"A\",\"B\"]}}],\"final\":true}")
        .unwrap();
    assert_eq!(chunks, vec!["A".to_string(), "B".to_string()]);
    assert!(fin);
    assert_eq!(st.full_answer, "AB");
}

#[test]
fn fed_lines_complete_the_answer_at_a_final_message() {
    let mut st = SearchStream::new();
    match st.feed_line("event: message", true) {
        Feed::Continue(c) => assert!(c.is_empty()),
        _ => panic!("unexpected end"),
    }
    let first = "data: {\"backend_uuid\":\"B\",\"read_write_token\":\"W\",\"blocks\":[{\"intended_usage\":\"ask_text\",\"markdown_block\":{\"chunks\":[\"Hi\"]}}]}";
    match st.feed_line(first, true) {
        Feed::Continue(c) => assert_eq!(c, vec!["Hi".to_string()]),
        _ => panic!("unexpected end"),
    }
    match st.feed_line("data: {oops", true) {
        Feed::Continue(c) => assert!(c.is_empty()),
        _ => panic!("unexpected end"),
    }
    match st.feed_line("data: {\"step_type\":\"FINAL\",\"blocks\":[{\"intended_usage\":\"ask_text\",\"markdown_block\":{\"chunks\":[\"!\"]}}]}", true) {
        Feed::Done { chunks, answer, thread } => {
            assert_eq!(chunks, vec!["!".to_string()]);
            assert_eq!(answer, "Hi!");
            let t = thread.unwrap();
            assert_eq!(t.last_backend_uuid, "B");
            assert_eq!(t.read_write_token, "W");
        }
        _ => panic!("expected the end"),
    }
}

#[test]
fn fed_end_event_completes_the_answer() {
    let mut st = SearchStream::new();
    st.full_answer = "done".to_string();
    st.last_backend_uuid = Some("B".to_string());
    st.read_write_token = Some("W".to_string());
    match st.feed_line("event: end_of_stream", false) {
        Feed::Done { chunks, answer, thread } => {
            assert!(chunks.is_empty());
            assert_eq!(answer, "done");
            assert!(thread.is_none());
        }
        _ => panic!("expected the end"),
    }
    let mut kept = SearchStream::new();
    kept.last_backend_uuid = Some("B".to_string());
    kept.read_write_token = Some("W".to_string());
    match kept.feed_line("event: end_of_stream", true) {
        Feed::Done { thread, .. } => assert_eq!(thread.unwrap().last_backend_uuid, "B"),
        _ => panic!("expected the end"),
    }
    let mut other = SearchStream::new();
    match other.feed_line(": keep-alive", true) {
        Feed::Continue(c) => assert!(c.is_empty()),
        _ => panic!("unexpected end"),
    }
}
