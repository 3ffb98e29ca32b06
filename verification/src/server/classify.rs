//! What a request to the messages API asks: to pick a tool among those it
//! offers, or a plain answer.
use vstd::prelude::*;

use crate::anthropic::types::{
    ContentBlock, Message, MessageContent, MessagesRequest, Role, ToolResultContent, UserSegment,
};
use crate::json::{deep_values, duplicate_all, JsonValue};
use crate::text::{
    chars_of, contains, contains_seq, has_prefix, join, join_with, owned, starts_with, strip_tag,
    strip_tag_from, trim, trim_seq,
};

verus! {

/// A user segment, as values.
pub enum SegmentView {
    Text(Seq<char>),
    Code(Seq<char>),
    ToolResult(Seq<char>),
}

impl View for UserSegment {
    type V = SegmentView;

    open spec fn view(&self) -> SegmentView {
        match self {
            UserSegment::Text(t) => SegmentView::Text(t@),
            UserSegment::Code(c) => SegmentView::Code(c@),
            UserSegment::ToolResult(r) => SegmentView::ToolResult(r@),
        }
    }
}

pub open spec fn segments_view(v: Seq<UserSegment>) -> Seq<SegmentView> {
    v.map_values(|s: UserSegment| s@)
}

/// What a request asks.
pub enum QueryKind {
    ToolSelection { user_query: Vec<UserSegment>, tools: Vec<JsonValue> },
    Plain(String),
}

/// `text` without the tagged parts that the client adds for itself:
/// system reminders, task notifications and tool-use ids.
pub open spec fn stripped_of_tags(text: Seq<char>) -> Seq<char> {
    let t = strip_tag(text, "<system-reminder>"@, "</system-reminder>"@);
    let t = strip_tag(t, "<task-notification>"@, "</task-notification>"@);
    strip_tag(t, "<tool-use-id>"@, "</tool-use-id>"@)
}

fn strip_one(text: &str, open: &str, close: &str) -> (r: String)
    requires
        close@.len() > 0,
    ensures
        r@ == strip_tag(text@, open@, close@),
{
    let v = chars_of(text);
    let o = chars_of(open);
    let c = chars_of(close);
    strip_tag_from(&v, &o, &c)
}

/// `text` without the tagged parts that the client adds for itself.
pub fn strip_system_tags(text: &str) -> (r: String)
    ensures
        r@ == stripped_of_tags(text@),
{
    proof {
        reveal_strlit("</system-reminder>");
        reveal_strlit("</task-notification>");
        reveal_strlit("</tool-use-id>");
    }
    let a = strip_one(text, "<system-reminder>", "</system-reminder>");
    let b = strip_one(a.as_str(), "<task-notification>", "</task-notification>");
    strip_one(b.as_str(), "<tool-use-id>", "</tool-use-id>")
}

/// The `text` members of the parts that have one, in order.
pub open spec fn part_texts(parts: Seq<JsonValue>) -> Seq<Seq<char>>
    decreases parts.len(),
{
    if parts.len() == 0 {
        Seq::empty()
    } else {
        let rest = part_texts(parts.drop_last());
        match parts.last().str_field("text"@) {
            Some(t) => rest.push(t),
            None => rest,
        }
    }
}

fn texts_of_parts(parts: &Vec<JsonValue>) -> (r: Vec<String>)
    ensures
        r@.map_values(|x: String| x@) == part_texts(parts@),
{
    let mut out: Vec<String> = Vec::new();
    let mut i: usize = 0;
    while i < parts.len()
        invariant
            i <= parts@.len(),
            out@.map_values(|x: String| x@) == part_texts(parts@.take(i as int)),
        decreases parts@.len() - i,
    {
        proof {
            assert(parts@.take(i + 1).drop_last() =~= parts@.take(i as int));
        }
        let ghost before = out@;
        match parts[i].get_str("text") {
            Some(t) => {
                out.push(owned(t));
                proof {
                    assert(out@.map_values(|x: String| x@) =~= before.map_values(|x: String| x@).push(t@));
                }
            },
            None => {},
        }
        i = i + 1;
    }
    proof {
        assert(parts@.take(parts@.len() as int) =~= parts@);
    }
    out
}

/// The text of a tool result: the string itself, the texts of its parts on
/// lines of their own, or the serialized value.
pub open spec fn tool_result_text(c: ToolResultContent) -> Seq<char> {
    match c {
        ToolResultContent::Text(s) => s@,
        ToolResultContent::Parts(parts) => join_with(part_texts(parts@), "\n"@),
        ToolResultContent::Other(s) => s@,
    }
}

/// The text of a tool result.
pub fn tool_result_string(c: &ToolResultContent) -> (r: String)
    ensures
        r@ == tool_result_text(*c),
{
    match c {
        ToolResultContent::Text(s) => owned(s.as_str()),
        ToolResultContent::Parts(parts) => {
            let ts = texts_of_parts(parts);
            proof {
                reveal_strlit("\n");
            }
            join(&ts, "\n")
        },
        ToolResultContent::Other(s) => owned(s.as_str()),
    }
}

/// The segment that a block of a user's message gives, if any.
pub open spec fn block_segment(b: ContentBlock) -> Option<SegmentView> {
    match b {
        ContentBlock::Text { text } => {
            let t = trim_seq(stripped_of_tags(text@));
            if t.len() == 0 {
                None
            } else if has_prefix(t, "```"@) {
                Some(SegmentView::Code(t))
            } else {
                Some(SegmentView::Text(t))
            }
        },
        ContentBlock::ToolResult { content, .. } => {
            let s = tool_result_text(content);
            if s.len() == 0 || contains_seq(s, "<task-notification>"@) {
                None
            } else {
                Some(SegmentView::ToolResult(s))
            }
        },
        ContentBlock::ToolUse { .. } => None,
    }
}

/// The segments that the blocks give, in order.
pub open spec fn blocks_segments(bs: Seq<ContentBlock>) -> Seq<SegmentView>
    decreases bs.len(),
{
    if bs.len() == 0 {
        Seq::empty()
    } else {
        let rest = blocks_segments(bs.drop_last());
        match block_segment(bs.last()) {
            Some(s) => rest.push(s),
            None => rest,
        }
    }
}

/// What a user's message says, if it says anything after the client's
/// own tags are removed.
pub open spec fn message_segments(m: Message) -> Option<Seq<SegmentView>> {
    match m.content {
        MessageContent::Text(s) => {
            let t = stripped_of_tags(s@);
            if trim_seq(t).len() == 0 {
                None
            } else {
                Some(seq![SegmentView::Text(t)])
            }
        },
        MessageContent::Blocks(bs) => {
            let segs = blocks_segments(bs@);
            if segs.len() == 0 {
                None
            } else {
                Some(segs)
            }
        },
    }
}

/// What the last user message that says anything says.
pub open spec fn last_user_query(ms: Seq<Message>) -> Seq<SegmentView>
    decreases ms.len(),
{
    if ms.len() == 0 {
        Seq::empty()
    } else if ms.last().role == Role::User && message_segments(ms.last()) is Some {
        message_segments(ms.last())->0
    } else {
        last_user_query(ms.drop_last())
    }
}

fn block_segment_exec(b: &ContentBlock) -> (r: Option<UserSegment>)
    ensures
        match (r, block_segment(*b)) {
            (Some(s), Some(v)) => s@ == v,
            (None, None) => true,
            _ => false,
        },
{
    match b {
        ContentBlock::Text { text } => {
            let s = strip_system_tags(text.as_str());
            let t = trim(s.as_str());
            if t.as_str().is_empty() {
                return None;
            }
            if starts_with(t.as_str(), "```") {
                Some(UserSegment::Code(t))
            } else {
                Some(UserSegment::Text(t))
            }
        },
        ContentBlock::ToolResult { content, .. } => {
            let s = tool_result_string(content);
            if s.as_str().is_empty() || contains(s.as_str(), "<task-notification>") {
                return None;
            }
            Some(UserSegment::ToolResult(s))
        },
        ContentBlock::ToolUse { .. } => None,
    }
}

fn message_segments_exec(m: &Message) -> (r: Option<Vec<UserSegment>>)
    ensures
        match (r, message_segments(*m)) {
            (Some(v), Some(w)) => segments_view(v@) == w,
            (None, None) => true,
            _ => false,
        },
{
    match &m.content {
        MessageContent::Text(s) => {
            let t = strip_system_tags(s.as_str());
            let tt = trim(t.as_str());
            if tt.as_str().is_empty() {
                None
            } else {
                let mut v: Vec<UserSegment> = Vec::new();
                v.push(UserSegment::Text(t));
                proof {
                    assert(segments_view(v@) =~= seq![SegmentView::Text(stripped_of_tags(s@))]);
                }
                Some(v)
            }
        },
        MessageContent::Blocks(bs) => {
            let mut out: Vec<UserSegment> = Vec::new();
            let mut i: usize = 0;
            while i < bs.len()
                invariant
                    i <= bs@.len(),
                    segments_view(out@) == blocks_segments(bs@.take(i as int)),
                decreases bs@.len() - i,
            {
                proof {
                    assert(bs@.take(i + 1).drop_last() =~= bs@.take(i as int));
                }
                let ghost before = out@;
                match block_segment_exec(&bs[i]) {
                    Some(seg) => {
                        out.push(seg);
                        proof {
                            assert(segments_view(out@) =~= segments_view(before).push(seg@));
                        }
                    },
                    None => {},
                }
                i = i + 1;
            }
            proof {
                assert(bs@.take(bs@.len() as int) =~= bs@);
            }
            if out.len() == 0 {
                None
            } else {
                Some(out)
            }
        },
    }
}

/// What the last user message that says anything says.
pub fn extract_user_query(req: &MessagesRequest) -> (r: Vec<UserSegment>)
    ensures
        segments_view(r@) == last_user_query(req.messages@),
{
    let ms = &req.messages;
    let mut i: usize = ms.len();
    proof {
        assert(ms@.take(ms@.len() as int) =~= ms@);
    }
    while i > 0
        invariant
            i <= ms@.len(),
            last_user_query(ms@) == last_user_query(ms@.take(i as int)),
        decreases i,
    {
        let ghost prefix = ms@.take(i as int);
        proof {
            assert(prefix.drop_last() =~= ms@.take(i - 1));
            assert(prefix.last() == ms@[i - 1]);
        }
        if ms[i - 1].role == Role::User {
            match message_segments_exec(&ms[i - 1]) {
                Some(v) => {
                    return v;
                },
                None => {},
            }
        }
        i = i - 1;
    }
    proof {
        assert(ms@.take(0) =~= Seq::<Message>::empty());
        assert(segments_view(Seq::<UserSegment>::empty()) =~= Seq::<SegmentView>::empty());
    }
    Vec::new()
}

/// The text of a system prompt: a string, or the texts of its blocks on
/// lines of their own.
pub open spec fn system_text(s: JsonValue) -> Seq<char> {
    match s {
        JsonValue::Str(t) => t@,
        JsonValue::Array(blocks) => join_with(part_texts(blocks@), "\n"@),
        _ => Seq::empty(),
    }
}

/// The text of one block, for a plain answer.
pub open spec fn block_text(b: ContentBlock) -> Option<Seq<char>> {
    match b {
        ContentBlock::Text { text } => Some(text@),
        ContentBlock::ToolResult { content, .. } => Some(tool_result_text(content)),
        ContentBlock::ToolUse { .. } => None,
    }
}

/// The texts of the blocks that have one, in order.
pub open spec fn block_texts(bs: Seq<ContentBlock>) -> Seq<Seq<char>>
    decreases bs.len(),
{
    if bs.len() == 0 {
        Seq::empty()
    } else {
        let rest = block_texts(bs.drop_last());
        match block_text(bs.last()) {
            Some(t) => rest.push(t),
            None => rest,
        }
    }
}

/// The text of a message, for a plain answer.
pub open spec fn message_text(m: Message) -> Seq<char> {
    match m.content {
        MessageContent::Text(s) => s@,
        MessageContent::Blocks(bs) => join_with(block_texts(bs@), "\n"@),
    }
}

/// The non-empty texts of the messages, in order.
pub open spec fn message_texts(ms: Seq<Message>) -> Seq<Seq<char>>
    decreases ms.len(),
{
    if ms.len() == 0 {
        Seq::empty()
    } else {
        let rest = message_texts(ms.drop_last());
        let t = message_text(ms.last());
        if t.len() > 0 {
            rest.push(t)
        } else {
            rest
        }
    }
}

/// The query of a plain request: the system prompt's text, if any, and the
/// texts of the messages, separated by blank lines.
pub open spec fn plain_query(req: MessagesRequest) -> Seq<char> {
    join_with(system_parts(req.system) + message_texts(req.messages@), "\n\n"@)
}

/// The system prompt's text, when there is one and it is not empty.
pub open spec fn system_parts(system: Option<JsonValue>) -> Seq<Seq<char>> {
    match system {
        Some(s) => if system_text(s).len() > 0 {
            seq![system_text(s)]
        } else {
            Seq::empty()
        },
        None => Seq::empty(),
    }
}

/// The kind of a request: a tool selection when it offers tools, with what
/// the user last said; a plain query otherwise.
pub open spec fn offers_tools(req: MessagesRequest) -> bool {
    req.tools matches Some(t) && t@.len() > 0
}

fn system_string(s: &JsonValue) -> (r: String)
    ensures
        r@ == system_text(*s),
{
    match s {
        JsonValue::Str(t) => owned(t.as_str()),
        JsonValue::Array(blocks) => {
            let ts = texts_of_parts(blocks);
            proof {
                reveal_strlit("\n");
            }
            join(&ts, "\n")
        },
        _ => String::new(),
    }
}

fn message_string(m: &Message) -> (r: String)
    ensures
        r@ == message_text(*m),
{
    match &m.content {
        MessageContent::Text(s) => owned(s.as_str()),
        MessageContent::Blocks(bs) => {
            let mut out: Vec<String> = Vec::new();
            let mut i: usize = 0;
            while i < bs.len()
                invariant
                    i <= bs@.len(),
                    out@.map_values(|x: String| x@) == block_texts(bs@.take(i as int)),
                decreases bs@.len() - i,
            {
                proof {
                    assert(bs@.take(i + 1).drop_last() =~= bs@.take(i as int));
                }
                let ghost before = out@;
                match &bs[i] {
                    ContentBlock::Text { text } => {
                        out.push(owned(text.as_str()));
                        proof {
                            assert(out@.map_values(|x: String| x@) =~= before.map_values(|x: String| x@).push(text@));
                        }
                    },
                    ContentBlock::ToolResult { content, .. } => {
                        let t = tool_result_string(content);
                        let ghost tv = t@;
                        out.push(t);
                        proof {
                            assert(out@.map_values(|x: String| x@) =~= before.map_values(|x: String| x@).push(tv));
                        }
                    },
                    ContentBlock::ToolUse { .. } => {},
                }
                i = i + 1;
            }
            proof {
                assert(bs@.take(bs@.len() as int) =~= bs@);
                reveal_strlit("\n");
            }
            join(&out, "\n")
        },
    }
}

/// The kind of request `req` is.
pub fn classify_request(req: &MessagesRequest) -> (r: QueryKind)
    ensures
        offers_tools(*req) ==> (r matches QueryKind::ToolSelection { user_query, tools }
            && segments_view(user_query@) == last_user_query(req.messages@) && deep_values(tools@)
            == deep_values(req.tools->0@)),
        !offers_tools(*req) ==> (r matches QueryKind::Plain(q) && q@ == plain_query(*req)),
{
    match &req.tools {
        Some(t) => {
            if t.len() > 0 {
                let user_query = extract_user_query(req);
                let tools = duplicate_all(t);
                return QueryKind::ToolSelection { user_query, tools };
            }
        },
        None => {},
    }
    let mut parts: Vec<String> = Vec::new();
    match &req.system {
        Some(s) => {
            let t = system_string(s);
            if !t.as_str().is_empty() {
                parts.push(t);
            }
        },
        None => {},
    }
    let ghost sys = parts@.map_values(|x: String| x@);
    proof {
        assert(sys =~= system_parts(req.system));
    }
    let ms = &req.messages;
    let mut i: usize = 0;
    while i < ms.len()
        invariant
            i <= ms@.len(),
            parts@.map_values(|x: String| x@) == sys + message_texts(ms@.take(i as int)),
        decreases ms@.len() - i,
    {
        proof {
            assert(ms@.take(i + 1).drop_last() =~= ms@.take(i as int));
        }
        let ghost before = parts@;
        let t = message_string(&ms[i]);
        if !t.as_str().is_empty() {
            let ghost tv = t@;
            parts.push(t);
            proof {
                assert(parts@.map_values(|x: String| x@) =~= before.map_values(|x: String| x@).push(tv));
            }
        }
        i = i + 1;
    }
    proof {
        assert(ms@.take(ms@.len() as int) =~= ms@);
        reveal_strlit("\n\n");
    }
    QueryKind::Plain(join(&parts, "\n\n"))
}


proof fn lemma_join_cons(a: Seq<char>, rest: Seq<Seq<char>>, sep: Seq<char>)
    ensures
        join_with(seq![a] + rest, sep) == if rest.len() == 0 {
            a
        } else {
            a + sep + join_with(rest, sep)
        },
    decreases rest.len(),
{
    let parts = seq![a] + rest;
    assert(parts.len() == rest.len() + 1);
    if rest.len() == 0 {
        assert(parts =~= seq![a]);
    } else if rest.len() == 1 {
        assert(parts.drop_last() =~= seq![a]);
        assert(parts.last() == rest[0]);
        assert(join_with(parts.drop_last(), sep) == a);
        assert(join_with(rest, sep) == rest[0]);
        assert(join_with(parts, sep) == join_with(parts.drop_last(), sep) + sep + parts.last());
    } else {
        assert(join_with(parts, sep) == join_with(parts.drop_last(), sep) + sep + parts.last());
        assert(join_with(rest, sep) == join_with(rest.drop_last(), sep) + sep + rest.last());
        lemma_join_cons(a, rest.drop_last(), sep);
        assert(parts.drop_last() =~= seq![a] + rest.drop_last());
        assert(parts.last() == rest.last());
        assert(a + sep + join_with(rest.drop_last(), sep) + sep + rest.last() =~= a + sep + (join_with(
            rest.drop_last(),
            sep,
        ) + sep + rest.last()));
    }
}

/// When the system prompt is a non-empty string, the plain query begins
/// with that string, and a blank line parts it from the messages' texts
/// that follow.
pub proof fn lemma_plain_query_starts_with_system_string(req: MessagesRequest, s: String)
    requires
        req.system == Some(JsonValue::Str(s)),
        s@.len() > 0,
    ensures
        has_prefix(plain_query(req), s@),
        plain_query(req).len() > s@.len() ==> has_prefix(plain_query(req).skip(s@.len() as int), "\n\n"@),
{
    reveal_strlit("\n\n");
    let mt = message_texts(req.messages@);
    assert(system_parts(req.system) == seq![s@]);
    lemma_join_cons(s@, mt, "\n\n"@);
    let q = plain_query(req);
    if mt.len() == 0 {
        assert(q == s@);
        assert(q.take(s@.len() as int) =~= s@);
    } else {
        let tail = "\n\n"@ + join_with(mt, "\n\n"@);
        assert(q == s@ + "\n\n"@ + join_with(mt, "\n\n"@));
        assert(q =~= s@ + tail);
        assert(q.take(s@.len() as int) =~= s@);
        assert(q.skip(s@.len() as int) =~= tail);
        assert(tail.take(2) =~= "\n\n"@);
    }
}

} // verus!
