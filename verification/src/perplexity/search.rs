//! A search on Perplexity: the request it sends, and the reading of the
//! event stream that answers it.
use vstd::prelude::*;

use super::session::ThreadState;
use super::types::{ProfileView, SearchParams};
use crate::json::{deep_fields, jstr, jstrs, parse_json, parsed_json, push_member, JsonValue, JsonView};
use crate::text::{
    chars_of, contains, contains_seq, has_prefix, owned, push_str, str_eq, string_of_range,
    trim, trim_seq, without_prefix,
};

verus! {

/// The string members that every search request carries after the ones
/// that depend on the conversation.
pub open spec fn common_tail(
    profile: ProfileView,
    mode: Seq<char>,
    model: Seq<char>,
    incognito: bool,
) -> Seq<(Seq<char>, JsonView)> {
    seq![
        ("mode"@, JsonView::Str(mode)),
        ("model_preference"@, JsonView::Str(model)),
        ("is_incognito"@, JsonView::Bool(incognito)),
        ("sources"@, JsonView::Array(profile.sources.map_values(|s: Seq<char>| JsonView::Str(s)))),
        ("source"@, JsonView::Str(profile.source)),
        ("use_schematized_api"@, JsonView::Bool(true)),
        ("skip_search_enabled"@, JsonView::Bool(profile.skip_search_enabled)),
        ("always_search_override"@, JsonView::Bool(profile.always_search_override)),
        (
            "supported_block_use_cases"@,
            JsonView::Array(
                profile.supported_block_use_cases.map_values(|s: Seq<char>| JsonView::Str(s)),
            ),
        ),
        (
            "supported_features"@,
            JsonView::Array(profile.supported_features.map_values(|s: Seq<char>| JsonView::Str(s))),
        ),
        ("is_related_query"@, JsonView::Bool(false)),
        ("expect_search_results"@, JsonView::Bool(profile.expect_search_results)),
    ]
}

/// The search parameters: a follow-up in a known conversation; the start
/// of a conversation with a known id; or a search on its own.
pub open spec fn search_params_spec(
    profile: ProfileView,
    mode: Seq<char>,
    model: Seq<char>,
    incognito: bool,
    context_uuid: Option<Seq<char>>,
    thread: Option<(Seq<char>, Seq<char>)>,
    frontend_uuid: Seq<char>,
    rum_session_id: Seq<char>,
) -> JsonView {
    JsonView::Object(
        conversation_members(profile, context_uuid, thread, frontend_uuid, rum_session_id)
            + common_tail(profile, mode, model, incognito),
    )
}

/// The body of a search request: the parameters and the query, twice.
pub open spec fn search_body_spec(params: JsonView, query: Seq<char>) -> JsonView {
    JsonView::Object(
        seq![
            ("params"@, params),
            ("query_str"@, JsonView::Str(query)),
            ("dsl_query"@, JsonView::Str(query)),
        ],
    )
}

pub open spec fn thread_view(t: Option<&ThreadState>) -> Option<(Seq<char>, Seq<char>)> {
    match t {
        Some(s) => Some((s.last_backend_uuid@, s.read_write_token@)),
        None => None,
    }
}

pub open spec fn opt_view(o: Option<String>) -> Option<Seq<char>> {
    match o {
        Some(s) => Some(s@),
        None => None,
    }
}

/// The members that depend on the conversation.
pub open spec fn conversation_members(
    profile: ProfileView,
    context_uuid: Option<Seq<char>>,
    thread: Option<(Seq<char>, Seq<char>)>,
    frontend_uuid: Seq<char>,
    rum_session_id: Seq<char>,
) -> Seq<(Seq<char>, JsonView)> {
    let head = seq![
        ("attachments"@, JsonView::Array(Seq::empty())),
        ("search_focus"@, JsonView::Str(profile.search_focus)),
        ("frontend_uuid"@, JsonView::Str(frontend_uuid)),
    ];
    let middle = match (context_uuid, thread) {
        (Some(_), Some((backend, token))) => seq![
            ("last_backend_uuid"@, JsonView::Str(backend)),
            ("read_write_token"@, JsonView::Str(token)),
            ("rum_session_id"@, JsonView::Str(rum_session_id)),
            ("followup_source"@, JsonView::Str("link"@)),
            ("query_source"@, JsonView::Str("followup"@)),
            ("prompt_source"@, JsonView::Str("user"@)),
        ],
        (Some(ctx), None) => seq![
            ("frontend_context_uuid"@, JsonView::Str(ctx)),
            ("rum_session_id"@, JsonView::Str(rum_session_id)),
            ("prompt_source"@, JsonView::Str("user"@)),
            ("query_source"@, JsonView::Str("home"@)),
        ],
        (None, _) => seq![
            ("rum_session_id"@, JsonView::Str(rum_session_id)),
            ("prompt_source"@, JsonView::Str("user"@)),
            ("query_source"@, JsonView::Str("home"@)),
        ],
    };
    head + middle
}

fn push_conversation(
    p: &mut Vec<(String, JsonValue)>,
    search_focus: &str,
    context_uuid: &Option<String>,
    thread: Option<&ThreadState>,
    frontend_uuid: &str,
    rum_session_id: &str,
)
    requires
        old(p)@.len() == 0,
    ensures
        forall|profile: ProfileView|
            profile.search_focus == search_focus@ ==> deep_fields(final(p)@) == conversation_members(
                profile,
                opt_view(*context_uuid),
                match *context_uuid {
                    Some(_) => thread_view(thread),
                    None => None,
                },
                frontend_uuid@,
                rum_session_id@,
            ),
{
    proof {
        reveal_strlit("link");
        reveal_strlit("followup");
        reveal_strlit("user");
        reveal_strlit("home");
        assert(deep_fields(p@) =~= Seq::<(Seq<char>, JsonView)>::empty());
    }
    push_member(p, "attachments", JsonValue::Array(Vec::new()));
    push_member(p, "search_focus", jstr(search_focus));
    push_member(p, "frontend_uuid", jstr(frontend_uuid));
    match context_uuid {
        Some(ctx) => match thread {
            Some(t) => {
                push_member(p, "last_backend_uuid", jstr(t.last_backend_uuid.as_str()));
                push_member(p, "read_write_token", jstr(t.read_write_token.as_str()));
                push_member(p, "rum_session_id", jstr(rum_session_id));
                push_member(p, "followup_source", jstr("link"));
                push_member(p, "query_source", jstr("followup"));
                push_member(p, "prompt_source", jstr("user"));
            },
            None => {
                push_member(p, "frontend_context_uuid", jstr(ctx.as_str()));
                push_member(p, "rum_session_id", jstr(rum_session_id));
                push_member(p, "prompt_source", jstr("user"));
                push_member(p, "query_source", jstr("home"));
            },
        },
        None => {
            push_member(p, "rum_session_id", jstr(rum_session_id));
            push_member(p, "prompt_source", jstr("user"));
            push_member(p, "query_source", jstr("home"));
        },
    }
}

fn push_tail(
    p: &mut Vec<(String, JsonValue)>,
    profile: &super::types::SearchProfile,
    mode: &str,
    model: &str,
    incognito: bool,
)
    ensures
        deep_fields(final(p)@) == deep_fields(old(p)@) + common_tail(profile@, mode@, model@, incognito),
{
    let ghost start = deep_fields(p@);
    push_member(p, "mode", jstr(mode));
    push_member(p, "model_preference", jstr(model));
    push_member(p, "is_incognito", JsonValue::Bool(incognito));
    let sources = jstrs(profile.sources);
    proof {
        assert(profile.sources@.map_values(|s: &str| JsonView::Str(s@)) =~= profile@.sources.map_values(
            |s: Seq<char>| JsonView::Str(s),
        ));
    }
    push_member(p, "sources", sources);
    push_member(p, "source", jstr(profile.source));
    push_member(p, "use_schematized_api", JsonValue::Bool(true));
    push_member(p, "skip_search_enabled", JsonValue::Bool(profile.skip_search_enabled));
    push_member(p, "always_search_override", JsonValue::Bool(profile.always_search_override));
    let cases = jstrs(profile.supported_block_use_cases);
    proof {
        assert(profile.supported_block_use_cases@.map_values(|s: &str| JsonView::Str(s@))
            =~= profile@.supported_block_use_cases.map_values(|s: Seq<char>| JsonView::Str(s)));
    }
    push_member(p, "supported_block_use_cases", cases);
    let features = jstrs(profile.supported_features);
    proof {
        assert(profile.supported_features@.map_values(|s: &str| JsonView::Str(s@))
            =~= profile@.supported_features.map_values(|s: Seq<char>| JsonView::Str(s)));
    }
    push_member(p, "supported_features", features);
    push_member(p, "is_related_query", JsonValue::Bool(false));
    push_member(p, "expect_search_results", JsonValue::Bool(profile.expect_search_results));
    proof {
        assert(deep_fields(p@) =~= start + common_tail(profile@, mode@, model@, incognito));
    }
}

/// The body of the search request for `params`, continuing the
/// conversation `thread` when there is one; `frontend_uuid` names the
/// request and `rum_session_id` the session.
pub fn search_body(
    params: &SearchParams,
    thread: Option<&ThreadState>,
    frontend_uuid: &str,
    rum_session_id: &str,
) -> (r: JsonValue)
    ensures
        r.deep() == search_body_spec(
            search_params_spec(
                params.search_mode.profile_spec(),
                params.mode@,
                params.model@,
                params.incognito,
                opt_view(params.context_uuid),
                match params.context_uuid {
                    Some(_) => thread_view(thread),
                    None => None,
                },
                frontend_uuid@,
                rum_session_id@,
            ),
            params.query@,
        ),
{
    let profile = params.search_mode.profile();
    let mut p: Vec<(String, JsonValue)> = Vec::new();
    push_conversation(
        &mut p,
        profile.search_focus,
        &params.context_uuid,
        thread,
        frontend_uuid,
        rum_session_id,
    );
    let ghost conv = deep_fields(p@);
    push_tail(&mut p, &profile, params.mode, params.model, params.incognito);
    let params_v = JsonValue::Object(p);
    let ghost spec = search_params_spec(
        params.search_mode.profile_spec(),
        params.mode@,
        params.model@,
        params.incognito,
        opt_view(params.context_uuid),
        match params.context_uuid {
            Some(_) => thread_view(thread),
            None => None,
        },
        frontend_uuid@,
        rum_session_id@,
    );
    proof {
        assert(profile@.search_focus == profile.search_focus@);
        assert(params_v.deep() == spec);
    }
    let mut body: Vec<(String, JsonValue)> = Vec::new();
    proof {
        assert(deep_fields(body@) =~= Seq::<(Seq<char>, JsonView)>::empty());
    }
    push_member(&mut body, "params", params_v);
    push_member(&mut body, "query_str", jstr(params.query));
    push_member(&mut body, "dsl_query", jstr(params.query));
    proof {
        assert(deep_fields(body@) =~= seq![
            ("params"@, spec),
            ("query_str"@, JsonView::Str(params.query@)),
            ("dsl_query"@, JsonView::Str(params.query@)),
        ]);
    }
    JsonValue::Object(body)
}

/// The string items of `vs`, in order.
pub open spec fn str_items(vs: Seq<JsonValue>) -> Seq<Seq<char>>
    decreases vs.len(),
{
    if vs.len() == 0 {
        Seq::empty()
    } else {
        match vs.last() {
            JsonValue::Str(s) => str_items(vs.drop_last()).push(s@),
            _ => str_items(vs.drop_last()),
        }
    }
}

/// The answer text that a block of a stream message carries: the string
/// chunks of its markdown, when the block is meant as answer text.
pub open spec fn block_chunks(b: JsonValue) -> Seq<Seq<char>> {
    if b.str_field("intended_usage"@) == Some("ask_text"@) {
        match b.get_spec("markdown_block"@) {
            Some(mb) => match mb.get_spec("chunks"@) {
                Some(JsonValue::Array(cs)) => str_items(cs@),
                _ => Seq::empty(),
            },
            None => Seq::empty(),
        }
    } else {
        Seq::empty()
    }
}

/// The answer text of the blocks, in order.
pub open spec fn blocks_chunks(bs: Seq<JsonValue>) -> Seq<Seq<char>>
    decreases bs.len(),
{
    if bs.len() == 0 {
        Seq::empty()
    } else {
        blocks_chunks(bs.drop_last()) + block_chunks(bs.last())
    }
}

/// The answer text that a stream message carries, chunk by chunk.
pub open spec fn message_chunks(msg: JsonValue) -> Seq<Seq<char>> {
    match msg.get_spec("blocks"@) {
        Some(JsonValue::Array(bs)) => blocks_chunks(bs@),
        _ => Seq::empty(),
    }
}

/// The chunks, one after the other.
pub open spec fn concat_all(ss: Seq<Seq<char>>) -> Seq<char>
    decreases ss.len(),
{
    if ss.len() == 0 {
        Seq::empty()
    } else {
        concat_all(ss.drop_last()) + ss.last()
    }
}

/// The message is the last of the answer.
pub open spec fn message_is_final(msg: JsonValue) -> bool {
    msg.str_field("step_type"@) == Some("FINAL"@) || msg.get_spec("final"@) == Some(
        JsonValue::Bool(true),
    )
}

/// What to do after a line of the stream.
#[derive(Debug)]
pub enum LineStep {
    /// Read the next line.
    Continue,
    /// The answer is complete.
    Finish,
    /// A data line, whose JSON text is to be read as a message.
    Data(String),
}

/// The reading of a search's event stream: the text not yet split into
/// lines, the answer so far, the last event name, and what continues the
/// conversation.
pub struct SearchStream {
    pub buf: String,
    pub full_answer: String,
    pub last_event: String,
    pub last_backend_uuid: Option<String>,
    pub read_write_token: Option<String>,
}

/// A stream reading, as values.
pub struct StreamView {
    pub buf: Seq<char>,
    pub full_answer: Seq<char>,
    pub last_event: Seq<char>,
    pub last_backend_uuid: Option<Seq<char>>,
    pub read_write_token: Option<Seq<char>>,
}

impl View for SearchStream {
    type V = StreamView;

    open spec fn view(&self) -> StreamView {
        StreamView {
            buf: self.buf@,
            full_answer: self.full_answer@,
            last_event: self.last_event@,
            last_backend_uuid: opt_view(self.last_backend_uuid),
            read_write_token: opt_view(self.read_write_token),
        }
    }
}

/// What a line of the stream does to the reading, and what comes next: an
/// `event:` line sets the event name and ends the answer at the end event;
/// a `data:` line hands on its data, unless the end event came; any other
/// line is skipped.
pub open spec fn line_step_spec(s: StreamView, line: Seq<char>) -> (StreamView, Option<Option<Seq<char>>>) {
    if has_prefix(line, "event:"@) {
        let ev = trim_seq(line.skip(6));
        (StreamView { last_event: ev, ..s }, if ev == "end_of_stream"@ { None } else { Some(None) })
    } else if !has_prefix(line, "data:"@) {
        (s, Some(None))
    } else if s.last_event == "end_of_stream"@ {
        (s, None)
    } else {
        (s, Some(Some(trim_seq(line.skip(5)))))
    }
}

/// The reading after the message `msg`: its answer text added, the
/// conversation's ids it carries kept.
pub open spec fn after_message(s: StreamView, msg: JsonValue) -> StreamView {
    StreamView {
        full_answer: s.full_answer + concat_all(message_chunks(msg)),
        last_backend_uuid: match msg.str_field("backend_uuid"@) {
            Some(u) => Some(u),
            None => s.last_backend_uuid,
        },
        read_write_token: match msg.str_field("read_write_token"@) {
            Some(t) => Some(t),
            None => s.read_write_token,
        },
        ..s
    }
}

/// What continues the conversation, once both of its ids were seen.
pub open spec fn stream_thread(s: StreamView) -> Option<(Seq<char>, Seq<char>)> {
    match (s.last_backend_uuid, s.read_write_token) {
        (Some(b), Some(t)) => Some((b, t)),
        _ => None,
    }
}

pub open spec fn owned_thread(t: Option<ThreadState>) -> Option<(Seq<char>, Seq<char>)> {
    match t {
        Some(s) => Some((s.last_backend_uuid@, s.read_write_token@)),
        None => None,
    }
}

/// What a line of the stream comes to.
pub enum Feed {
    /// The answer text that the line carried, chunk by chunk; the stream
    /// goes on.
    Continue(Vec<String>),
    /// The answer is complete: the text that the line carried, the whole
    /// answer, and what continues the conversation when it is to be kept.
    Done { chunks: Vec<String>, answer: String, thread: Option<ThreadState> },
}

/// The text of the chunks `v`.
pub open spec fn chunk_texts(v: Vec<String>) -> Seq<Seq<char>> {
    v@.map_values(|c: String| c@)
}

impl SearchStream {
    /// A reading that has seen nothing.
    pub fn new() -> (s: Self)
        ensures
            s@.buf.len() == 0,
            s@.full_answer.len() == 0,
            s@.last_event.len() == 0,
            s@.last_backend_uuid is None,
            s@.read_write_token is None,
    {
        SearchStream {
            buf: String::new(),
            full_answer: String::new(),
            last_event: String::new(),
            last_backend_uuid: None,
            read_write_token: None,
        }
    }

    /// Adds text that arrived on the stream.
    pub fn push_text(&mut self, text: &str)
        ensures
            final(self)@ == (StreamView { buf: old(self)@.buf + text@, ..old(self)@ }),
    {
        push_str(&mut self.buf, text);
    }

    /// The next whole line, trimmed, taken off the text received.
    pub fn next_line(&mut self) -> (r: Option<String>)
        ensures
            ({
                let k = crate::text::char_index(old(self)@.buf, '\n');
                if k < old(self)@.buf.len() {
                    r matches Some(l) && l@ == trim_seq(old(self)@.buf.take(k))
                        && final(self)@ == (StreamView { buf: old(self)@.buf.skip(k + 1), ..old(self)@ })
                } else {
                    r is None && final(self)@ == old(self)@
                }
            }),
    {
        let v = chars_of(self.buf.as_str());
        let k = crate::text::index_of_char(&v, 0, v.len(), '\n');
        proof {
            crate::text::lemma_char_index(v@, '\n', k as int);
        }
        if k == v.len() {
            return None;
        }
        let line = string_of_range(&v, 0, k);
        let rest = string_of_range(&v, k + 1, v.len());
        proof {
            assert(line@ =~= v@.take(k as int));
            assert(rest@ =~= v@.skip(k + 1));
        }
        self.buf = rest;
        Some(trim(line.as_str()))
    }

    /// Reads a line of the stream.
    pub fn on_line(&mut self, line: &str) -> (r: LineStep)
        ensures
            final(self)@ == line_step_spec(old(self)@, line@).0,
            match (r, line_step_spec(old(self)@, line@).1) {
                (LineStep::Continue, Some(None)) => true,
                (LineStep::Finish, None) => true,
                (LineStep::Data(d), Some(Some(e))) => d@ == e,
                _ => false,
            },
    {
        proof {
            reveal_strlit("event:");
            reveal_strlit("data:");
        }
        if crate::text::starts_with(line, "event:") {
            let rest = without_prefix(line, "event:");
            self.last_event = trim(rest.as_str());
            if str_eq(self.last_event.as_str(), "end_of_stream") {
                return LineStep::Finish;
            }
            return LineStep::Continue;
        }
        if !crate::text::starts_with(line, "data:") {
            return LineStep::Continue;
        }
        let rest = without_prefix(line, "data:");
        let data = trim(rest.as_str());
        if str_eq(self.last_event.as_str(), "end_of_stream") {
            return LineStep::Finish;
        }
        LineStep::Data(data)
    }

    /// Reads a message of the stream: keeps the conversation's ids it
    /// carries, adds its answer text; gives that text, chunk by chunk, and
    /// whether the answer is complete.
    pub fn on_message(&mut self, msg: &JsonValue) -> (r: (Vec<String>, bool))
        ensures
            r.0@.map_values(|x: String| x@) == message_chunks(*msg),
            r.1 == message_is_final(*msg),
            final(self)@ == after_message(old(self)@, *msg),
    {
        match msg.get_str("backend_uuid") {
            Some(u) => {
                self.last_backend_uuid = Some(owned(u));
            },
            None => {},
        }
        match msg.get_str("read_write_token") {
            Some(t) => {
                self.read_write_token = Some(owned(t));
            },
            None => {},
        }
        let step_final = match msg.get_str("step_type") {
            Some(t) => str_eq(t, "FINAL"),
            None => false,
        };
        let flag_final = match msg.get("final") {
            Some(JsonValue::Bool(b)) => *b,
            _ => false,
        };
        let is_final = step_final || flag_final;
        let chunks = collect_chunks(msg);
        let ghost cv = chunks@.map_values(|x: String| x@);
        let mut i: usize = 0;
        let ghost full0 = self.full_answer@;
        let ghost s0 = self@;
        while i < chunks.len()
            invariant
                i <= chunks@.len(),
                self@.buf == s0.buf,
                self@.last_event == s0.last_event,
                self@.last_backend_uuid == s0.last_backend_uuid,
                self@.read_write_token == s0.read_write_token,
                cv == chunks@.map_values(|x: String| x@),
                self.full_answer@ == full0 + concat_all(cv.take(i as int)),
            decreases chunks@.len() - i,
        {
            push_str(&mut self.full_answer, chunks[i].as_str());
            proof {
                assert(cv.take(i + 1).drop_last() =~= cv.take(i as int));
                assert(cv[i as int] == chunks@[i as int]@);
            }
            i = i + 1;
        }
        proof {
            assert(cv.take(chunks@.len() as int) =~= cv);
        }
        (chunks, is_final)
    }

    /// Reads the data of a `data:` line: when it is JSON, the message it
    /// holds, as `on_message` reads it; other data changes nothing.
    pub fn on_data(&mut self, data: &str) -> (r: Option<(Vec<String>, bool)>)
        ensures
            match parsed_json(data@) {
                None => r is None && final(self)@ == old(self)@,
                Some(d) => exists|msg: JsonValue|
                    msg.deep() == d && (r matches Some(x) && x.0@.map_values(|c: String| c@)
                        == message_chunks(msg) && x.1 == message_is_final(msg))
                        && final(self)@ == after_message(old(self)@, msg),
            },
    {
        match parse_json(data) {
            Some(msg) => Some(self.on_message(&msg)),
            None => None,
        }
    }

    /// Reads a line of the stream, and a message that it carries: the end
    /// event completes the answer, and so does a final message; the
    /// conversation is kept, when `keep_thread` asks for it, at the end
    /// event or at a final message.
    pub fn feed_line(&mut self, line: &str, keep_thread: bool) -> (r: Feed)
        ensures
            ({
                let (s1, step) = line_step_spec(old(self)@, line@);
                match step {
                    Some(None) => final(self)@ == s1 && (r matches Feed::Continue(c) && c@.len() == 0),
                    None => final(self)@ == s1 && (r matches Feed::Done { chunks, answer, thread }
                        && chunks@.len() == 0 && answer@ == s1.full_answer && owned_thread(thread)
                        == (if keep_thread && has_prefix(line@, "event:"@) {
                        stream_thread(s1)
                    } else {
                        None
                    })),
                    Some(Some(d)) => match parsed_json(d) {
                        None => final(self)@ == s1 && (r matches Feed::Continue(c) && c@.len() == 0),
                        Some(dv) => exists|msg: JsonValue|
                            msg.deep() == dv && final(self)@ == after_message(s1, msg) && if message_is_final(
                                msg,
                            ) {
                                r matches Feed::Done { chunks, answer, thread } && chunk_texts(chunks)
                                    == message_chunks(msg) && answer@ == final(self)@.full_answer
                                    && owned_thread(thread) == (if keep_thread {
                                    stream_thread(final(self)@)
                                } else {
                                    None
                                })
                            } else {
                                r matches Feed::Continue(c) && chunk_texts(c) == message_chunks(msg)
                            },
                    },
                }
            }),
    {
        proof {
            reveal_strlit("event:");
        }
        let is_event = crate::text::starts_with(line, "event:");
        match self.on_line(line) {
            LineStep::Continue => Feed::Continue(Vec::new()),
            LineStep::Finish => {
                let thread = if keep_thread && is_event {
                    self.thread_update()
                } else {
                    None
                };
                Feed::Done { chunks: Vec::new(), answer: owned(self.full_answer.as_str()), thread }
            },
            LineStep::Data(d) => match self.on_data(d.as_str()) {
                None => Feed::Continue(Vec::new()),
                Some((chunks, fin)) => {
                    if fin {
                        let thread = if keep_thread {
                            self.thread_update()
                        } else {
                            None
                        };
                        Feed::Done { chunks, answer: owned(self.full_answer.as_str()), thread }
                    } else {
                        Feed::Continue(chunks)
                    }
                },
            },
        }
    }

    /// What continues the conversation, once both ids were seen.
    pub fn thread_update(&self) -> (r: Option<ThreadState>)
        ensures
            owned_thread(r) == stream_thread(self@),
            match r {
                Some(t) => self@.last_backend_uuid == Some(t.last_backend_uuid@)
                    && self@.read_write_token == Some(t.read_write_token@),
                None => self@.last_backend_uuid is None || self@.read_write_token is None,
            },
    {
        match (&self.last_backend_uuid, &self.read_write_token) {
            (Some(b), Some(t)) => Some(
                ThreadState { last_backend_uuid: owned(b.as_str()), read_write_token: owned(t.as_str()) },
            ),
            _ => None,
        }
    }

    /// The answer when the stream closes: refused when nothing came.
    pub fn on_close(&self) -> (r: Result<String, String>)
        ensures
            self@.full_answer.len() == 0 ==> (r matches Err(e) && e@
                == "Stream closed without content or end_of_stream event"@),
            self@.full_answer.len() > 0 ==> (r matches Ok(a) && a@ == self@.full_answer),
    {
        if self.full_answer.as_str().is_empty() {
            Err(owned("Stream closed without content or end_of_stream event"))
        } else {
            Ok(owned(self.full_answer.as_str()))
        }
    }
}

fn str_items_exec(vs: &Vec<JsonValue>, out: &mut Vec<String>)
    ensures
        final(out)@.map_values(|x: String| x@) == old(out)@.map_values(|x: String| x@) + str_items(vs@),
{
    let ghost start = out@.map_values(|x: String| x@);
    let mut i: usize = 0;
    while i < vs.len()
        invariant
            i <= vs@.len(),
            out@.map_values(|x: String| x@) == start + str_items(vs@.take(i as int)),
        decreases vs@.len() - i,
    {
        proof {
            assert(vs@.take(i + 1).drop_last() =~= vs@.take(i as int));
        }
        let ghost before = out@;
        match &vs[i] {
            JsonValue::Str(s) => {
                out.push(owned(s.as_str()));
                proof {
                    assert(out@.map_values(|x: String| x@) =~= before.map_values(|x: String| x@).push(s@));
                }
            },
            _ => {},
        }
        i = i + 1;
    }
    proof {
        assert(vs@.take(vs@.len() as int) =~= vs@);
    }
}

fn collect_chunks(msg: &JsonValue) -> (r: Vec<String>)
    ensures
        r@.map_values(|x: String| x@) == message_chunks(*msg),
{
    let mut out: Vec<String> = Vec::new();
    proof {
        assert(out@.map_values(|x: String| x@) =~= Seq::<Seq<char>>::empty());
    }
    match msg.get("blocks") {
        Some(JsonValue::Array(bs)) => {
            let mut i: usize = 0;
            while i < bs.len()
                invariant
                    i <= bs@.len(),
                    out@.map_values(|x: String| x@) == blocks_chunks(bs@.take(i as int)),
                decreases bs@.len() - i,
            {
                proof {
                    assert(bs@.take(i + 1).drop_last() =~= bs@.take(i as int));
                }
                let b = &bs[i];
                let usage_ok = match b.get_str("intended_usage") {
                    Some(u) => str_eq(u, "ask_text"),
                    None => false,
                };
                if usage_ok {
                    match b.get("markdown_block") {
                        Some(mb) => match mb.get("chunks") {
                            Some(JsonValue::Array(cs)) => {
                                str_items_exec(cs, &mut out);
                            },
                            _ => {
                                proof {
                                    assert(out@.map_values(|x: String| x@) =~= out@.map_values(|x: String| x@) + Seq::<Seq<char>>::empty());
                                }
                            },
                        },
                        None => {
                            proof {
                                assert(out@.map_values(|x: String| x@) =~= out@.map_values(|x: String| x@) + Seq::<Seq<char>>::empty());
                            }
                        },
                    }
                } else {
                    proof {
                        assert(out@.map_values(|x: String| x@) =~= out@.map_values(|x: String| x@) + Seq::<Seq<char>>::empty());
                    }
                }
                i = i + 1;
            }
            proof {
                assert(bs@.take(bs@.len() as int) =~= bs@);
            }
        },
        _ => {},
    }
    out
}

/// The answer text shows the sign-up wall of a session that is not signed
/// in.
pub open spec fn auth_wall(result: Seq<char>) -> bool {
    contains_seq(result, "Sign up and repeat"@) || contains_seq(result, "sign up to"@)
}

/// Whether an answer is the sign-up wall of a session that is not signed
/// in, which makes a search try again.
pub fn is_auth_wall(result: &str) -> (b: bool)
    ensures
        b == auth_wall(result@),
{
    contains(result, "Sign up and repeat") || contains(result, "sign up to")
}

/// How many times a search is tried.
pub const MAX_RETRIES: u32 = 3;

/// What one try of a search came to.
pub enum AttemptOutcome {
    /// The search answered.
    Answer(String),
    /// The search failed.
    Failed(String),
    /// Refreshing the session before the try failed.
    ReconnectFailed(String),
}

/// What to do after a try.
#[derive(Debug)]
pub enum RetryAction {
    /// The answer stands.
    Return(String),
    /// Wait, refresh the session, and try again.
    TryAgain,
    /// Give up with this error.
    GiveUp(String),
}

/// The tries of a search so far, and the last error.
pub struct SearchRetry {
    pub attempt: u32,
    pub last_error: String,
}

impl SearchRetry {
    /// No try made yet.
    pub fn new() -> (r: Self)
        ensures
            r.attempt == 0,
            r.last_error@ == "Unknown error"@,
    {
        SearchRetry { attempt: 0, last_error: owned("Unknown error") }
    }

    /// Takes in what a try came to: an answer stands unless it is the
    /// sign-up wall; a failure, or the wall, counts as a try, and after
    /// the last try the last error is the result.
    pub fn after(&mut self, outcome: AttemptOutcome) -> (r: RetryAction)
        requires
            old(self).attempt < MAX_RETRIES,
        ensures
            match outcome {
                AttemptOutcome::Answer(a) if !auth_wall(a@) => r matches RetryAction::Return(x)
                    && x@ == a@ && final(self).attempt == old(self).attempt,
                _ => {
                    let err = match outcome {
                        AttemptOutcome::Answer(_) => "Session unauthenticated"@,
                        AttemptOutcome::Failed(e) => e@,
                        AttemptOutcome::ReconnectFailed(e) => e@,
                    };
                    &&& final(self).attempt == old(self).attempt + 1
                    &&& final(self).last_error@ == err
                    &&& if final(self).attempt < MAX_RETRIES {
                        r is TryAgain
                    } else {
                        r matches RetryAction::GiveUp(e) && e@ == err
                    }
                },
            },
    {
        match outcome {
            AttemptOutcome::Answer(a) => {
                if !is_auth_wall(a.as_str()) {
                    return RetryAction::Return(a);
                }
                self.last_error = owned("Session unauthenticated");
            },
            AttemptOutcome::Failed(e) => {
                self.last_error = e;
            },
            AttemptOutcome::ReconnectFailed(e) => {
                self.last_error = e;
            },
        }
        self.attempt = self.attempt + 1;
        if self.attempt < MAX_RETRIES {
            RetryAction::TryAgain
        } else {
            RetryAction::GiveUp(owned(self.last_error.as_str()))
        }
    }
}

/// `c` is a lower-case hexadecimal digit.
pub open spec fn lower_hex(c: char) -> bool {
    ('0' <= c && c <= '9') || ('a' <= c && c <= 'f')
}

/// `s` is a UUID in hyphenated lower-case form.
pub open spec fn uuid_text(s: Seq<char>) -> bool {
    &&& s.len() == 36
    &&& forall|i: int|
        0 <= i < 36 ==> (if i == 8 || i == 13 || i == 18 || i == 23 {
            s[i] == '-'
        } else {
            lower_hex(#[trigger] s[i])
        })
}

/// `Uuid::new_v4().to_string()`: a random UUID, in its hyphenated
/// lower-case form; which one is left open.
#[verifier::external_body]
pub(crate) fn fresh_uuid() -> (r: String)
    ensures
        uuid_text(r@),
{
    uuid::Uuid::new_v4().to_string()
}

/// The body of a new search request: a fresh UUID names the request.
pub fn new_search_body(params: &SearchParams, thread: Option<&ThreadState>, rum_session_id: &str) -> (r: (
    JsonValue,
    String,
))
    ensures
        uuid_text(r.1@),
        r.0.deep() == search_body_spec(
            search_params_spec(
                params.search_mode.profile_spec(),
                params.mode@,
                params.model@,
                params.incognito,
                opt_view(params.context_uuid),
                match params.context_uuid {
                    Some(_) => thread_view(thread),
                    None => None,
                },
                r.1@,
                rum_session_id@,
            ),
            params.query@,
        ),
{
    let frontend_uuid = fresh_uuid();
    let body = search_body(params, thread, frontend_uuid.as_str(), rum_session_id);
    (body, frontend_uuid)
}


proof fn lemma_blocks_chunks_add(a: Seq<JsonValue>, b: Seq<JsonValue>)
    ensures
        blocks_chunks(a + b) == blocks_chunks(a) + blocks_chunks(b),
    decreases b.len(),
{
    if b.len() == 0 {
        assert(a + b =~= a);
        assert(blocks_chunks(a) + Seq::<Seq<char>>::empty() =~= blocks_chunks(a));
    } else {
        lemma_blocks_chunks_add(a, b.drop_last());
        assert((a + b).drop_last() =~= a + b.drop_last());
        assert((a + b).last() == b.last());
        assert(blocks_chunks(a) + blocks_chunks(b.drop_last()) + block_chunks(b.last()) =~= blocks_chunks(a)
            + (blocks_chunks(b.drop_last()) + block_chunks(b.last())));
    }
}

/// The answer text of blocks that come one after the other is the text of
/// the first ones followed by the text of the others: every block counts,
/// wherever it stands.
pub proof fn lemma_blocks_answer_concatenates(m1: JsonValue, m2: JsonValue, b1: Vec<JsonValue>, b2: Vec<JsonValue>, extra: Seq<JsonValue>)
    requires
        m1.get_spec("blocks"@) == Some(JsonValue::Array(b1)),
        m2.get_spec("blocks"@) == Some(JsonValue::Array(b2)),
        b2@ == b1@ + extra,
    ensures
        message_chunks(m2) == message_chunks(m1) + blocks_chunks(extra),
{
    lemma_blocks_chunks_add(b1@, extra);
}

/// A block that is meant as answer text gives its string chunks, and a
/// message of that block alone gives exactly those.
pub proof fn lemma_single_block_answer(m: JsonValue, bs: Vec<JsonValue>)
    requires
        m.get_spec("blocks"@) == Some(JsonValue::Array(bs)),
        bs@.len() == 1,
    ensures
        message_chunks(m) == block_chunks(bs@[0]),
{
    assert(bs@.drop_last() =~= Seq::<JsonValue>::empty());
    assert(blocks_chunks(bs@.drop_last()) == Seq::<Seq<char>>::empty());
    assert(bs@.last() == bs@[0]);
    assert(blocks_chunks(bs@) == blocks_chunks(bs@.drop_last()) + block_chunks(bs@.last()));
    assert(Seq::<Seq<char>>::empty() + block_chunks(bs@[0]) =~= block_chunks(bs@[0]));
}

} // verus!
