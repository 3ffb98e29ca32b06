//! Deciding what to do with a request to the messages API: answer a
//! client's housekeeping request at once, learn the client's environment
//! from its system prompt, and hand a tool result or a new request on.
use vstd::prelude::*;

use crate::anthropic::types::{ContentBlock, Message, MessageContent, MessagesRequest};
use crate::json::{deep_fields, deep_values, jstr, push_member, JsonValue, JsonView};
use crate::server::classify::{part_texts, tool_result_string, tool_result_text};
use crate::state::EnvironmentContext;
use crate::text::{
    chars_of, contains, contains_seq, has_prefix, join, join_with, lines, lines_of, owned,
    push_str, string_of_range, trim, trim_seq, without_prefix,
};

verus! {

/// A request that the bridge answers itself when its system prompt and its
/// last message contain the given texts.
pub struct MessageClassifier {
    pub system_contains: Option<&'static str>,
    pub message_contains: Option<&'static str>,
}

/// `val` contains `pat`, or there is no pattern.
pub open spec fn pattern_holds(pat: Option<&'static str>, val: Option<Seq<char>>) -> bool {
    match pat {
        None => true,
        Some(p) => match val {
            Some(s) => contains_seq(s, p@),
            None => false,
        },
    }
}

pub open spec fn opt_string(o: Option<String>) -> Option<Seq<char>> {
    match o {
        Some(s) => Some(s@),
        None => None,
    }
}

fn pattern_check(pat: Option<&'static str>, val: &Option<String>) -> (b: bool)
    ensures
        b == pattern_holds(pat, opt_string(*val)),
{
    match pat {
        None => true,
        Some(p) => match val {
            Some(s) => contains(s.as_str(), p),
            None => false,
        },
    }
}

impl MessageClassifier {
    /// The title classifier, as values.
    pub open spec fn title_spec() -> MessageClassifier {
        MessageClassifier {
            system_contains: Some("Generate a concise, sentence-case title"),
            message_contains: None,
        }
    }

    /// The suggestion classifier, as values.
    pub open spec fn suggestion_spec() -> MessageClassifier {
        MessageClassifier { system_contains: None, message_contains: Some("[SUGGESTION MODE:") }
    }

    /// The client asks for a title of the session.
    pub fn title() -> (c: Self)
        ensures
            c == Self::title_spec(),
    {
        MessageClassifier {
            system_contains: Some("Generate a concise, sentence-case title"),
            message_contains: None,
        }
    }

    /// The client asks for a suggestion of what to type next.
    pub fn suggestion() -> (c: Self)
        ensures
            c == Self::suggestion_spec(),
    {
        MessageClassifier { system_contains: None, message_contains: Some("[SUGGESTION MODE:") }
    }

    /// Both patterns that are set occur, the first in the system prompt and
    /// the second in the last message.
    pub fn matches(&self, system: &Option<String>, message: &Option<String>) -> (b: bool)
        ensures
            b == (pattern_holds(self.system_contains, opt_string(*system)) && pattern_holds(
                self.message_contains,
                opt_string(*message),
            )),
    {
        pattern_check(self.system_contains, system) && pattern_check(self.message_contains, message)
    }
}

/// The text of a system prompt, for matching: the string, the texts of its
/// blocks on lines of their own, or nothing for any other value.
pub open spec fn system_str(system: Option<JsonValue>) -> Option<Seq<char>> {
    match system {
        None => None,
        Some(JsonValue::Str(t)) => Some(t@),
        Some(JsonValue::Array(blocks)) => Some(join_with(part_texts(blocks@), "\n"@)),
        Some(_) => Some(Seq::empty()),
    }
}

/// The text of a system prompt, for matching.
pub fn system_string(system: &Option<JsonValue>) -> (r: Option<String>)
    ensures
        opt_string(r) == system_str(*system),
{
    match system {
        None => None,
        Some(JsonValue::Str(t)) => Some(owned(t.as_str())),
        Some(JsonValue::Array(blocks)) => {
            let mut ts: Vec<String> = Vec::new();
            let mut i: usize = 0;
            while i < blocks.len()
                invariant
                    i <= blocks@.len(),
                    ts@.map_values(|x: String| x@) == part_texts(blocks@.take(i as int)),
                decreases blocks@.len() - i,
            {
                proof {
                    assert(blocks@.take(i + 1).drop_last() =~= blocks@.take(i as int));
                }
                let ghost before = ts@;
                match blocks[i].get_str("text") {
                    Some(t) => {
                        ts.push(owned(t));
                        proof {
                            assert(ts@.map_values(|x: String| x@) =~= before.map_values(|x: String| x@).push(t@));
                        }
                    },
                    None => {},
                }
                i = i + 1;
            }
            proof {
                assert(blocks@.take(blocks@.len() as int) =~= blocks@);
                reveal_strlit("\n");
            }
            Some(join(&ts, "\n"))
        },
        Some(_) => Some(String::new()),
    }
}

/// The text of the first text block among `bs`.
pub open spec fn first_block_text(bs: Seq<ContentBlock>) -> Option<Seq<char>>
    decreases bs.len(),
{
    if bs.len() == 0 {
        None
    } else {
        match bs[0] {
            ContentBlock::Text { text } => Some(text@),
            _ => first_block_text(bs.drop_first()),
        }
    }
}

/// The text of the last message: its string, or its first text block.
pub open spec fn last_text(ms: Seq<Message>) -> Option<Seq<char>> {
    if ms.len() == 0 {
        None
    } else {
        match ms.last().content {
            MessageContent::Text(s) => Some(s@),
            MessageContent::Blocks(bs) => first_block_text(bs@),
        }
    }
}

/// The text of the last message of `req`.
pub fn last_message_text(req: &MessagesRequest) -> (r: Option<String>)
    ensures
        opt_string(r) == last_text(req.messages@),
{
    let n = req.messages.len();
    if n == 0 {
        return None;
    }
    match &req.messages[n - 1].content {
        MessageContent::Text(s) => Some(owned(s.as_str())),
        MessageContent::Blocks(bs) => {
            let mut i: usize = 0;
            proof {
                assert(bs@.skip(0) =~= bs@);
            }
            while i < bs.len()
                invariant
                    i <= bs@.len(),
                    first_block_text(bs@) == first_block_text(bs@.skip(i as int)),
                decreases bs@.len() - i,
            {
                proof {
                    assert(bs@.skip(i as int).drop_first() =~= bs@.skip(i + 1));
                }
                match &bs[i] {
                    ContentBlock::Text { text } => {
                        return Some(owned(text.as_str()));
                    },
                    _ => {},
                }
                i = i + 1;
            }
            None
        },
    }
}

/// The first `n` characters of `s`, or all of them.
pub open spec fn prefix_of(s: Seq<char>, n: int) -> Seq<char> {
    if s.len() <= n {
        s
    } else {
        s.take(n)
    }
}

/// The title of a session: the first forty characters of its last message,
/// or `Coding session`.
pub open spec fn title_spec(message: Option<Seq<char>>) -> Seq<char> {
    prefix_of(
        match message {
            Some(m) => m,
            None => "Coding session"@,
        },
        40,
    )
}

/// The title of a session.
pub fn title_text(message: &Option<String>) -> (r: String)
    ensures
        r@ == title_spec(opt_string(*message)),
{
    let src = match message {
        Some(m) => chars_of(m.as_str()),
        None => chars_of("Coding session"),
    };
    if src.len() <= 40 {
        string_of_range(&src, 0, src.len())
    } else {
        string_of_range(&src, 0, 40)
    }
}

/// The text of a title answer: `{"title":"<title>"}`, the title as it is.
pub open spec fn title_payload_spec(title: Seq<char>) -> Seq<char> {
    "{\"title\":\""@ + title + "\"}"@
}

/// The text of a title answer.
pub fn title_payload(title: &str) -> (r: String)
    ensures
        r@ == title_payload_spec(title@),
{
    let mut s = String::new();
    push_str(&mut s, "{\"title\":\"");
    push_str(&mut s, title);
    push_str(&mut s, "\"}");
    s
}

/// `s` without any number of leading `- `.
pub open spec fn strip_dashes(s: Seq<char>) -> Seq<char>
    decreases s.len(),
{
    if s.len() >= 2 && s[0] == '-' && s[1] == ' ' {
        strip_dashes(s.skip(2))
    } else {
        s
    }
}

fn strip_dashes_exec(s: &str) -> (r: String)
    ensures
        r@ == strip_dashes(s@),
{
    let v = chars_of(s);
    let mut i: usize = 0;
    proof {
        assert(v@.skip(0) =~= v@);
    }
    while v.len() >= 2 && i <= v.len() - 2 && v[i] == '-' && v[i + 1] == ' '
        invariant
            i <= v@.len(),
            strip_dashes(v@) == strip_dashes(v@.skip(i as int)),
        decreases v@.len() - i,
    {
        proof {
            assert(v@.skip(i as int).skip(2) =~= v@.skip(i + 2));
        }
        i = i + 2;
    }
    proof {
        assert(v@.subrange(i as int, v@.len() as int) =~= v@.skip(i as int));
    }
    string_of_range(&v, i, v.len())
}

/// A line of a system prompt, as it is read for the environment.
pub open spec fn env_line(l: Seq<char>) -> Seq<char> {
    strip_dashes(trim_seq(l))
}

/// The value that the last line of `ls` starting with `prefix` gives.
pub open spec fn last_value(ls: Seq<Seq<char>>, prefix: Seq<char>) -> Option<Seq<char>>
    decreases ls.len(),
{
    if ls.len() == 0 {
        None
    } else if has_prefix(env_line(ls.last()), prefix) {
        Some(trim_seq(env_line(ls.last()).skip(prefix.len() as int)))
    } else {
        last_value(ls.drop_last(), prefix)
    }
}

/// The lines of the texts of the system prompt's blocks, in order.
pub open spec fn system_lines(parts: Seq<Seq<char>>) -> Seq<Seq<char>>
    decreases parts.len(),
{
    if parts.len() == 0 {
        Seq::empty()
    } else {
        system_lines(parts.drop_last()) + lines_of(parts.last())
    }
}

/// The field after the system prompt's lines: the last value given, or
/// what it was.
pub open spec fn updated(old: Seq<char>, v: Option<Seq<char>>) -> Seq<char> {
    match v {
        Some(x) => x,
        None => old,
    }
}

/// What the system prompt `system` says of the working directory, the
/// platform and the shell, in lines `Primary working directory: ...`,
/// `Platform: ...` and `Shell: ...`, each possibly after `- `.
pub open spec fn system_env_lines(system: Option<JsonValue>) -> Seq<Seq<char>> {
    match system {
        Some(JsonValue::Array(blocks)) => system_lines(part_texts(blocks@)),
        _ => Seq::empty(),
    }
}

fn apply_line(env: &mut EnvironmentContext, line: &str)
    ensures
        final(env).cwd@ == (if has_prefix(env_line(line@), "Primary working directory:"@) {
            trim_seq(env_line(line@).skip(26))
        } else {
            old(env).cwd@
        }),
        final(env).platform@ == (if has_prefix(env_line(line@), "Platform:"@) {
            trim_seq(env_line(line@).skip(9))
        } else {
            old(env).platform@
        }),
        final(env).shell@ == (if has_prefix(env_line(line@), "Shell:"@) {
            trim_seq(env_line(line@).skip(6))
        } else {
            old(env).shell@
        }),
        final(env).last_resolved_dir == old(env).last_resolved_dir,
        final(env).file_index == old(env).file_index,
{
    proof {
        reveal_strlit("Primary working directory:");
        reveal_strlit("Platform:");
        reveal_strlit("Shell:");
    }
    let t = trim(line);
    let l = strip_dashes_exec(t.as_str());
    let ghost lv = l@;
    let cwd_p = "Primary working directory:";
    let plat_p = "Platform:";
    let shell_p = "Shell:";
    if crate::text::starts_with(l.as_str(), cwd_p) {
        let rest = without_prefix(l.as_str(), cwd_p);
        env.cwd = trim(rest.as_str());
        proof {
            assert(!has_prefix(lv, "Platform:"@)) by {
                if has_prefix(lv, "Platform:"@) {
                    assert(lv.take(9)[1] == lv[1]);
                    assert(lv.take(26)[1] == lv[1]);
                }
            }
            assert(!has_prefix(lv, "Shell:"@)) by {
                if has_prefix(lv, "Shell:"@) {
                    assert(lv.take(6)[0] == lv[0]);
                    assert(lv.take(26)[0] == lv[0]);
                }
            }
        }
    } else if crate::text::starts_with(l.as_str(), plat_p) {
        let rest = without_prefix(l.as_str(), plat_p);
        env.platform = trim(rest.as_str());
        proof {
            assert(!has_prefix(lv, "Shell:"@)) by {
                if has_prefix(lv, "Shell:"@) {
                    assert(lv.take(6)[0] == lv[0]);
                    assert(lv.take(9)[0] == lv[0]);
                }
            }
        }
    } else if crate::text::starts_with(l.as_str(), shell_p) {
        let rest = without_prefix(l.as_str(), shell_p);
        env.shell = trim(rest.as_str());
    }
}

/// The environment after the lines `ls` of a system prompt.
pub open spec fn env_after(
    cwd: Seq<char>,
    platform: Seq<char>,
    shell: Seq<char>,
    ls: Seq<Seq<char>>,
) -> (Seq<char>, Seq<char>, Seq<char>) {
    (
        updated(cwd, last_value(ls, "Primary working directory:"@)),
        updated(platform, last_value(ls, "Platform:"@)),
        updated(shell, last_value(ls, "Shell:"@)),
    )
}

/// Learns the working directory, the platform and the shell from the
/// lines of the blocks of the system prompt `system`; the last line that
/// gives one of them wins.
pub fn apply_system_env(env: &mut EnvironmentContext, system: &Option<JsonValue>)
    ensures
        (final(env).cwd@, final(env).platform@, final(env).shell@) == env_after(
            old(env).cwd@,
            old(env).platform@,
            old(env).shell@,
            system_env_lines(*system),
        ),
        final(env).last_resolved_dir == old(env).last_resolved_dir,
        final(env).file_index == old(env).file_index,
{
    proof {
        reveal_strlit("Primary working directory:");
        reveal_strlit("Platform:");
        reveal_strlit("Shell:");
    }
    let ghost c0 = env.cwd@;
    let ghost p0 = env.platform@;
    let ghost s0 = env.shell@;
    let blocks = match system {
        Some(JsonValue::Array(b)) => b,
        _ => {
            return;
        },
    };
    let mut i: usize = 0;
    while i < blocks.len()
        invariant
            i <= blocks@.len(),
            system_env_lines(*system) == system_lines(part_texts(blocks@)),
            (env.cwd@, env.platform@, env.shell@) == env_after(
                c0,
                p0,
                s0,
                system_lines(part_texts(blocks@.take(i as int))),
            ),
            env.last_resolved_dir == old(env).last_resolved_dir,
            env.file_index == old(env).file_index,
        decreases blocks@.len() - i,
    {
        let ghost done = system_lines(part_texts(blocks@.take(i as int)));
        proof {
            assert(blocks@.take(i + 1).drop_last() =~= blocks@.take(i as int));
        }
        match blocks[i].get_str("text") {
            Some(text) => {
                let ls = lines(text);
                let ghost lv = ls@.map_values(|x: String| x@);
                let mut j: usize = 0;
                proof {
                    assert(done + lv.take(0) =~= done);
                }
                while j < ls.len()
                    invariant
                        j <= ls@.len(),
                        lv == ls@.map_values(|x: String| x@),
                        (env.cwd@, env.platform@, env.shell@) == env_after(c0, p0, s0, done + lv.take(j as int)),
                        env.last_resolved_dir == old(env).last_resolved_dir,
                        env.file_index == old(env).file_index,
                    decreases ls@.len() - j,
                {
                    let ghost pre = done + lv.take(j as int);
                    let ghost post = done + lv.take(j + 1);
                    proof {
                        assert(post =~= pre.push(lv[j as int]));
                        assert(post.drop_last() =~= pre);
                        assert(lv[j as int] == ls@[j as int]@);
                    }
                    apply_line(env, ls[j].as_str());
                    j = j + 1;
                }
                proof {
                    assert(lv.take(ls@.len() as int) =~= lv);
                    let pt = part_texts(blocks@.take(i + 1));
                    assert(blocks@.take(i + 1).last() == blocks@[i as int]);
                    assert(pt == part_texts(blocks@.take(i as int)).push(text@));
                    assert(pt.drop_last() =~= part_texts(blocks@.take(i as int)));
                    assert(system_lines(pt) == done + lines_of(text@));
                }
            },
            None => {
                proof {
                    assert(system_lines(part_texts(blocks@.take(i + 1))) =~= done);
                }
            },
        }
        i = i + 1;
    }
    proof {
        assert(blocks@.take(blocks@.len() as int) =~= blocks@);
    }
}

/// The text of the first tool result among `bs`.
pub open spec fn first_tool_result(bs: Seq<ContentBlock>) -> Option<Seq<char>>
    decreases bs.len(),
{
    if bs.len() == 0 {
        None
    } else {
        match bs[0] {
            ContentBlock::ToolResult { content, .. } => Some(tool_result_text(content)),
            _ => first_tool_result(bs.drop_first()),
        }
    }
}

/// The tool result that the last message carries, if any.
pub open spec fn inbound_result(ms: Seq<Message>) -> Option<Seq<char>> {
    if ms.len() == 0 {
        None
    } else {
        match ms.last().content {
            MessageContent::Blocks(bs) => first_tool_result(bs@),
            MessageContent::Text(_) => None,
        }
    }
}

/// The tool result that the last message of `req` carries, if any.
pub fn inbound_tool_result(req: &MessagesRequest) -> (r: Option<String>)
    ensures
        opt_string(r) == inbound_result(req.messages@),
{
    let n = req.messages.len();
    if n == 0 {
        return None;
    }
    match &req.messages[n - 1].content {
        MessageContent::Text(_) => None,
        MessageContent::Blocks(bs) => {
            let mut i: usize = 0;
            proof {
                assert(bs@.skip(0) =~= bs@);
            }
            while i < bs.len()
                invariant
                    i <= bs@.len(),
                    first_tool_result(bs@) == first_tool_result(bs@.skip(i as int)),
                decreases bs@.len() - i,
            {
                proof {
                    assert(bs@.skip(i as int).drop_first() =~= bs@.skip(i + 1));
                }
                match &bs[i] {
                    ContentBlock::ToolResult { content, .. } => {
                        return Some(tool_result_string(content));
                    },
                    _ => {},
                }
                i = i + 1;
            }
            None
        },
    }
}

/// Where a request goes.
#[derive(Clone, Copy, Debug, PartialEq, Eq, Structural)]
pub enum Dispatch {
    /// A tool result that the waiting call receives.
    ToolResult,
    /// An empty answer: nothing waits for what came.
    Echo,
    /// A new request, to classify.
    Select,
}

/// Where a request goes: a tool result to the call that waits for it, or
/// else to be classified; a request without one is answered empty while a
/// workflow is paused or waits for a tool.
pub open spec fn dispatch_spec(has_result: bool, paused: bool, has_pending: bool) -> Dispatch {
    if has_result {
        if has_pending {
            Dispatch::ToolResult
        } else {
            Dispatch::Select
        }
    } else if paused || has_pending {
        Dispatch::Echo
    } else {
        Dispatch::Select
    }
}

/// Where a request goes, given whether it carries a tool result, whether
/// the workflow is paused, and whether a tool call waits for its result.
pub fn dispatch(has_result: bool, paused: bool, has_pending: bool) -> (d: Dispatch)
    ensures
        d == dispatch_spec(has_result, paused, has_pending),
{
    if has_result {
        if has_pending {
            Dispatch::ToolResult
        } else {
            Dispatch::Select
        }
    } else if paused || has_pending {
        Dispatch::Echo
    } else {
        Dispatch::Select
    }
}

/// An answer that the bridge gives at once.
pub enum ShortCircuit {
    Title(String),
    Suggestion,
    Echo,
}

/// The answer that the bridge gives at once to a request with system text
/// `system` and last message `message`: a title, a suggestion, or none.
pub fn short_circuit(system: &Option<String>, message: &Option<String>) -> (r: Option<ShortCircuit>)
    ensures
        match r {
            Some(ShortCircuit::Title(t)) => pattern_holds(
                MessageClassifier::title_spec().system_contains,
                opt_string(*system),
            ) && t@ == title_spec(opt_string(*message)),
            Some(ShortCircuit::Suggestion) => !pattern_holds(
                MessageClassifier::title_spec().system_contains,
                opt_string(*system),
            ) && pattern_holds(
                MessageClassifier::suggestion_spec().message_contains,
                opt_string(*message),
            ),
            Some(ShortCircuit::Echo) => false,
            None => !pattern_holds(
                MessageClassifier::title_spec().system_contains,
                opt_string(*system),
            ) && !pattern_holds(
                MessageClassifier::suggestion_spec().message_contains,
                opt_string(*message),
            ),
        },
{
    if MessageClassifier::title().matches(system, message) {
        return Some(ShortCircuit::Title(title_text(message)));
    }
    if MessageClassifier::suggestion().matches(system, message) {
        return Some(ShortCircuit::Suggestion);
    }
    None
}

/// A whole answer of the assistant with the single text `text`, as the
/// bridge gives it at once: no tokens counted, the turn ended.
pub open spec fn canned_message(id: Seq<char>, model: Seq<char>, text: Seq<char>) -> JsonView {
    JsonView::Object(
        seq![
            (
                "content"@,
                JsonView::Array(
                    seq![
                        JsonView::Object(
                            seq![("text"@, JsonView::Str(text)), ("type"@, JsonView::Str("text"@))],
                        ),
                    ],
                ),
            ),
            ("id"@, JsonView::Str(id)),
            ("model"@, JsonView::Str(model)),
            ("role"@, JsonView::Str("assistant"@)),
            ("stop_reason"@, JsonView::Str("end_turn"@)),
            ("type"@, JsonView::Str("message"@)),
            (
                "usage"@,
                JsonView::Object(
                    seq![
                        ("input_tokens"@, JsonView::Number("0"@)),
                        ("output_tokens"@, JsonView::Number("0"@)),
                    ],
                ),
            ),
        ],
    )
}

/// The body of the answer given at once for the model `model`.
pub open spec fn short_body(sc: ShortCircuit, model: Seq<char>) -> JsonView {
    match sc {
        ShortCircuit::Echo => JsonView::Object(Seq::empty()),
        ShortCircuit::Title(t) => canned_message("msg_title"@, model, title_payload_spec(t@)),
        ShortCircuit::Suggestion => canned_message("msg_suggestion"@, model, Seq::empty()),
    }
}

fn canned(id: &str, model: &str, text: &str) -> (r: JsonValue)
    ensures
        r.deep() == canned_message(id@, model@, text@),
{
    let mut block: Vec<(String, JsonValue)> = Vec::new();
    proof {
        assert(deep_fields(block@) =~= Seq::<(Seq<char>, JsonView)>::empty());
    }
    push_member(&mut block, "text", jstr(text));
    push_member(&mut block, "type", jstr("text"));
    proof {
        assert(deep_fields(block@) =~= seq![("text"@, JsonView::Str(text@)), ("type"@, JsonView::Str("text"@))]);
    }
    let block_v = JsonValue::Object(block);
    let ghost bv = block_v.deep();
    let content = JsonValue::Array(vec![block_v]);
    proof {
        let items = content->Array_0@;
        assert(items =~= seq![block_v]);
        assert(items.subrange(0, 0) =~= Seq::<JsonValue>::empty());
        reveal_with_fuel(deep_values, 2);
        assert(deep_values(items) =~= seq![bv]);
        assert(bv == JsonView::Object(seq![("text"@, JsonView::Str(text@)), ("type"@, JsonView::Str("text"@))]));
    }
    let mut usage: Vec<(String, JsonValue)> = Vec::new();
    proof {
        assert(deep_fields(usage@) =~= Seq::<(Seq<char>, JsonView)>::empty());
    }
    push_member(&mut usage, "input_tokens", JsonValue::Number(owned("0")));
    push_member(&mut usage, "output_tokens", JsonValue::Number(owned("0")));
    let mut fields: Vec<(String, JsonValue)> = Vec::new();
    proof {
        assert(deep_fields(fields@) =~= Seq::<(Seq<char>, JsonView)>::empty());
    }
    push_member(&mut fields, "content", content);
    push_member(&mut fields, "id", jstr(id));
    push_member(&mut fields, "model", jstr(model));
    push_member(&mut fields, "role", jstr("assistant"));
    push_member(&mut fields, "stop_reason", jstr("end_turn"));
    push_member(&mut fields, "type", jstr("message"));
    push_member(&mut fields, "usage", JsonValue::Object(usage));
    proof {
        assert(deep_fields(usage@) =~= seq![
            ("input_tokens"@, JsonView::Number("0"@)),
            ("output_tokens"@, JsonView::Number("0"@)),
        ]);
        assert(deep_fields(fields@) =~= canned_message(id@, model@, text@)->Object_0);
    }
    JsonValue::Object(fields)
}

impl ShortCircuit {
    /// The body of the answer: an empty object for an echo, else a whole
    /// assistant message carrying the title payload or no text.
    pub fn respond(&self, model: &str) -> (r: JsonValue)
        ensures
            r.deep() == short_body(*self, model@),
    {
        match self {
            ShortCircuit::Echo => {
                let v: Vec<(String, JsonValue)> = Vec::new();
                proof {
                    assert(deep_fields(v@) =~= Seq::<(Seq<char>, JsonView)>::empty());
                }
                let r = JsonValue::Object(v);
                proof {
                    assert(r.deep() == JsonView::Object(Seq::<(Seq<char>, JsonView)>::empty()));
                    assert(short_body(*self, model@) == JsonView::Object(Seq::<(Seq<char>, JsonView)>::empty()));
                }
                r
            },
            ShortCircuit::Title(t) => {
                let payload = title_payload(t.as_str());
                let r = canned("msg_title", model, payload.as_str());
                proof {
                    assert(r.deep() == canned_message("msg_title"@, model@, title_payload_spec(t@)));
                }
                r
            },
            ShortCircuit::Suggestion => {
                proof {
                    reveal_strlit("");
                    assert(""@ =~= Seq::<char>::empty());
                }
                let r = canned("msg_suggestion", model, "");
                proof {
                    assert(r.deep() == canned_message("msg_suggestion"@, model@, Seq::empty()));
                }
                r
            },
        }
    }
}

} // verus!
