//! Server-sent events of a streamed messages response.
use vstd::prelude::*;

use crate::json::{escaped, escaped_char, hex_digit, json_quote, quoted};
use crate::text::{contains_seq, occurs_at, push_str};

verus! {

/// An event of a streamed response.
pub enum SseEvent<'a> {
    MessageStart { id: &'a str, model: &'a str },
    ContentBlockStart,
    ToolUseBlockStart { id: &'a str, name: &'a str },
    TextDelta(&'a str),
    ToolUseDelta(&'a str),
    ContentBlockStop,
    MessageDelta,
    MessageDeltaTool,
    MessageStop,
}

/// The event's name.
pub open spec fn event_name(e: SseEvent) -> Seq<char> {
    match e {
        SseEvent::MessageStart { .. } => "message_start"@,
        SseEvent::ContentBlockStart => "content_block_start"@,
        SseEvent::ToolUseBlockStart { .. } => "content_block_start"@,
        SseEvent::TextDelta(_) => "content_block_delta"@,
        SseEvent::ToolUseDelta(_) => "content_block_delta"@,
        SseEvent::ContentBlockStop => "content_block_stop"@,
        SseEvent::MessageDelta => "message_delta"@,
        SseEvent::MessageDeltaTool => "message_delta"@,
        SseEvent::MessageStop => "message_stop"@,
    }
}

/// The event's data: a compact JSON object, with the keys of each object in
/// sorted order.
pub open spec fn event_data(e: SseEvent) -> Seq<char> {
    match e {
        SseEvent::MessageStart { id, model } => "{\"message\":{\"content\":[],\"id\":"@ + quoted(id@)
            + ",\"model\":"@ + quoted(model@)
            + ",\"role\":\"assistant\",\"stop_reason\":null,\"type\":\"message\",\"usage\":{\"input_tokens\":0}},\"type\":\"message_start\"}"@,
        SseEvent::ContentBlockStart => "{\"content_block\":{\"text\":\"\",\"type\":\"text\"},\"index\":0,\"type\":\"content_block_start\"}"@,
        SseEvent::ToolUseBlockStart { id, name } => "{\"content_block\":{\"id\":"@ + quoted(id@)
            + ",\"input\":{},\"name\":"@ + quoted(name@)
            + ",\"type\":\"tool_use\"},\"index\":0,\"type\":\"content_block_start\"}"@,
        SseEvent::TextDelta(text) => "{\"delta\":{\"text\":"@ + quoted(text@)
            + ",\"type\":\"text_delta\"},\"index\":0,\"type\":\"content_block_delta\"}"@,
        SseEvent::ToolUseDelta(p) => "{\"delta\":{\"partial_json\":"@ + quoted(p@)
            + ",\"type\":\"input_json_delta\"},\"index\":0,\"type\":\"content_block_delta\"}"@,
        SseEvent::ContentBlockStop => "{\"index\":0,\"type\":\"content_block_stop\"}"@,
        SseEvent::MessageDelta => "{\"delta\":{\"stop_reason\":\"end_turn\",\"stop_sequence\":null},\"type\":\"message_delta\",\"usage\":{\"output_tokens\":0}}"@,
        SseEvent::MessageDeltaTool => "{\"delta\":{\"stop_reason\":\"tool_use\",\"stop_sequence\":null},\"type\":\"message_delta\",\"usage\":{\"output_tokens\":0}}"@,
        SseEvent::MessageStop => "{\"type\":\"message_stop\"}"@,
    }
}

/// The event as it is sent: its name, its data, and a blank line.
pub open spec fn rendered(e: SseEvent) -> Seq<char> {
    "event: "@ + event_name(e) + "\ndata: "@ + event_data(e) + "\n\n"@
}

impl<'a> SseEvent<'a> {
    /// The event as it is sent on the stream.
    pub fn render(&self) -> (r: String)
        ensures
            r@ == rendered(*self),
    {
        let mut s = String::new();
        push_str(&mut s, "event: ");
        match self {
            SseEvent::MessageStart { id, model } => {
                push_str(&mut s, "message_start");
                push_str(&mut s, "\ndata: ");
                push_str(&mut s, "{\"message\":{\"content\":[],\"id\":");
                let q = json_quote(id);
                push_str(&mut s, q.as_str());
                push_str(&mut s, ",\"model\":");
                let q = json_quote(model);
                push_str(&mut s, q.as_str());
                push_str(
                    &mut s,
                    ",\"role\":\"assistant\",\"stop_reason\":null,\"type\":\"message\",\"usage\":{\"input_tokens\":0}},\"type\":\"message_start\"}",
                );
            },
            SseEvent::ContentBlockStart => {
                push_str(&mut s, "content_block_start");
                push_str(&mut s, "\ndata: ");
                push_str(
                    &mut s,
                    "{\"content_block\":{\"text\":\"\",\"type\":\"text\"},\"index\":0,\"type\":\"content_block_start\"}",
                );
            },
            SseEvent::ToolUseBlockStart { id, name } => {
                push_str(&mut s, "content_block_start");
                push_str(&mut s, "\ndata: ");
                push_str(&mut s, "{\"content_block\":{\"id\":");
                let q = json_quote(id);
                push_str(&mut s, q.as_str());
                push_str(&mut s, ",\"input\":{},\"name\":");
                let q = json_quote(name);
                push_str(&mut s, q.as_str());
                push_str(
                    &mut s,
                    ",\"type\":\"tool_use\"},\"index\":0,\"type\":\"content_block_start\"}",
                );
            },
            SseEvent::TextDelta(text) => {
                push_str(&mut s, "content_block_delta");
                push_str(&mut s, "\ndata: ");
                push_str(&mut s, "{\"delta\":{\"text\":");
                let q = json_quote(text);
                push_str(&mut s, q.as_str());
                push_str(
                    &mut s,
                    ",\"type\":\"text_delta\"},\"index\":0,\"type\":\"content_block_delta\"}",
                );
            },
            SseEvent::ToolUseDelta(p) => {
                push_str(&mut s, "content_block_delta");
                push_str(&mut s, "\ndata: ");
                push_str(&mut s, "{\"delta\":{\"partial_json\":");
                let q = json_quote(p);
                push_str(&mut s, q.as_str());
                push_str(
                    &mut s,
                    ",\"type\":\"input_json_delta\"},\"index\":0,\"type\":\"content_block_delta\"}",
                );
            },
            SseEvent::ContentBlockStop => {
                push_str(&mut s, "content_block_stop");
                push_str(&mut s, "\ndata: ");
                push_str(&mut s, "{\"index\":0,\"type\":\"content_block_stop\"}");
            },
            SseEvent::MessageDelta => {
                push_str(&mut s, "message_delta");
                push_str(&mut s, "\ndata: ");
                push_str(
                    &mut s,
                    "{\"delta\":{\"stop_reason\":\"end_turn\",\"stop_sequence\":null},\"type\":\"message_delta\",\"usage\":{\"output_tokens\":0}}",
                );
            },
            SseEvent::MessageDeltaTool => {
                push_str(&mut s, "message_delta");
                push_str(&mut s, "\ndata: ");
                push_str(
                    &mut s,
                    "{\"delta\":{\"stop_reason\":\"tool_use\",\"stop_sequence\":null},\"type\":\"message_delta\",\"usage\":{\"output_tokens\":0}}",
                );
            },
            SseEvent::MessageStop => {
                push_str(&mut s, "message_stop");
                push_str(&mut s, "\ndata: ");
                push_str(&mut s, "{\"type\":\"message_stop\"}");
            },
        }
        push_str(&mut s, "\n\n");
        proof {
            assert(s@ =~= rendered(*self));
        }
        s
    }
}

} // verus!

verus! {

/// `s` holds no line feed.
pub open spec fn no_lf(s: Seq<char>) -> bool {
    forall|i: int| 0 <= i < s.len() ==> s[i] != '\n'
}

/// The number of line feeds in `s`.
pub open spec fn lf_count(s: Seq<char>) -> nat
    decreases s.len(),
{
    if s.len() == 0 {
        0
    } else {
        lf_count(s.drop_last()) + if s.last() == '\n' {
            1nat
        } else {
            0nat
        }
    }
}

proof fn lemma_lf_count_add(a: Seq<char>, b: Seq<char>)
    ensures
        lf_count(a + b) == lf_count(a) + lf_count(b),
    decreases b.len(),
{
    if b.len() > 0 {
        assert((a + b).drop_last() =~= a + b.drop_last());
        lemma_lf_count_add(a, b.drop_last());
    } else {
        assert(a + b =~= a);
    }
}

proof fn lemma_no_lf_count(s: Seq<char>)
    requires
        no_lf(s),
    ensures
        lf_count(s) == 0,
    decreases s.len(),
{
    if s.len() > 0 {
        lemma_no_lf_count(s.drop_last());
    }
}

proof fn lemma_no_lf_add(a: Seq<char>, b: Seq<char>)
    requires
        no_lf(a),
        no_lf(b),
    ensures
        no_lf(a + b),
{
    assert forall|i: int| 0 <= i < (a + b).len() implies (a + b)[i] != '\n' by {
        if i < a.len() {
            assert((a + b)[i] == a[i]);
        } else {
            assert((a + b)[i] == b[i - a.len()]);
        }
    }
}

proof fn lemma_hex_digit_not_lf(d: nat)
    requires
        d < 16,
    ensures
        hex_digit(d) != '\n',
{
    assert(hex_digit(d) as u32 >= 48);
}

proof fn lemma_escaped_char_no_lf(c: char)
    ensures
        no_lf(escaped_char(c)),
{
    let n = c as u32;
    if c != '"' && c != '\\' && n != 8 && n != 12 && c != '\n' && c != '\r' && c != '\t' && n < 32 {
        lemma_hex_digit_not_lf((n / 16) as nat);
        lemma_hex_digit_not_lf((n % 16) as nat);
    }
}

proof fn lemma_escaped_no_lf(s: Seq<char>)
    ensures
        no_lf(escaped(s)),
    decreases s.len(),
{
    if s.len() > 0 {
        lemma_escaped_no_lf(s.drop_last());
        lemma_escaped_char_no_lf(s.last());
        lemma_no_lf_add(escaped(s.drop_last()), escaped_char(s.last()));
    } else {
        assert(escaped(s) =~= Seq::<char>::empty());
    }
}

proof fn lemma_quoted_no_lf(s: Seq<char>)
    ensures
        no_lf(quoted(s)),
{
    lemma_escaped_no_lf(s);
    lemma_no_lf_add(seq!['"'], escaped(s));
    lemma_no_lf_add(seq!['"'] + escaped(s), seq!['"']);
}

proof fn lemma_event_data_no_lf(e: SseEvent)
    ensures
        no_lf(event_data(e)),
{
    reveal_strlit("{\"message\":{\"content\":[],\"id\":");
    reveal_strlit(",\"model\":");
    reveal_strlit(",\"role\":\"assistant\",\"stop_reason\":null,\"type\":\"message\",\"usage\":{\"input_tokens\":0}},\"type\":\"message_start\"}");
    reveal_strlit("{\"content_block\":{\"text\":\"\",\"type\":\"text\"},\"index\":0,\"type\":\"content_block_start\"}");
    reveal_strlit("{\"content_block\":{\"id\":");
    reveal_strlit(",\"input\":{},\"name\":");
    reveal_strlit(",\"type\":\"tool_use\"},\"index\":0,\"type\":\"content_block_start\"}");
    reveal_strlit("{\"delta\":{\"text\":");
    reveal_strlit(",\"type\":\"text_delta\"},\"index\":0,\"type\":\"content_block_delta\"}");
    reveal_strlit("{\"delta\":{\"partial_json\":");
    reveal_strlit(",\"type\":\"input_json_delta\"},\"index\":0,\"type\":\"content_block_delta\"}");
    reveal_strlit("{\"index\":0,\"type\":\"content_block_stop\"}");
    reveal_strlit("{\"delta\":{\"stop_reason\":\"end_turn\",\"stop_sequence\":null},\"type\":\"message_delta\",\"usage\":{\"output_tokens\":0}}");
    reveal_strlit("{\"delta\":{\"stop_reason\":\"tool_use\",\"stop_sequence\":null},\"type\":\"message_delta\",\"usage\":{\"output_tokens\":0}}");
    reveal_strlit("{\"type\":\"message_stop\"}");
    match e {
        SseEvent::MessageStart { id, model } => {
            let a = "{\"message\":{\"content\":[],\"id\":"@;
            let b = ",\"model\":"@;
            let c = ",\"role\":\"assistant\",\"stop_reason\":null,\"type\":\"message\",\"usage\":{\"input_tokens\":0}},\"type\":\"message_start\"}"@;
            assert(no_lf(a));
            assert(no_lf(b));
            assert(no_lf(c));
            lemma_quoted_no_lf(id@);
            lemma_quoted_no_lf(model@);
            lemma_no_lf_add(a, quoted(id@));
            lemma_no_lf_add(a + quoted(id@), b);
            lemma_no_lf_add(a + quoted(id@) + b, quoted(model@));
            lemma_no_lf_add(a + quoted(id@) + b + quoted(model@), c);
        },
        SseEvent::ToolUseBlockStart { id, name } => {
            let a = "{\"content_block\":{\"id\":"@;
            let b = ",\"input\":{},\"name\":"@;
            let c = ",\"type\":\"tool_use\"},\"index\":0,\"type\":\"content_block_start\"}"@;
            assert(no_lf(a));
            assert(no_lf(b));
            assert(no_lf(c));
            lemma_quoted_no_lf(id@);
            lemma_quoted_no_lf(name@);
            lemma_no_lf_add(a, quoted(id@));
            lemma_no_lf_add(a + quoted(id@), b);
            lemma_no_lf_add(a + quoted(id@) + b, quoted(name@));
            lemma_no_lf_add(a + quoted(id@) + b + quoted(name@), c);
        },
        SseEvent::TextDelta(x) => {
            let a = "{\"delta\":{\"text\":"@;
            let c = ",\"type\":\"text_delta\"},\"index\":0,\"type\":\"content_block_delta\"}"@;
            assert(no_lf(a));
            assert(no_lf(c));
            lemma_quoted_no_lf(x@);
            lemma_no_lf_add(a, quoted(x@));
            lemma_no_lf_add(a + quoted(x@), c);
        },
        SseEvent::ToolUseDelta(x) => {
            let a = "{\"delta\":{\"partial_json\":"@;
            let c = ",\"type\":\"input_json_delta\"},\"index\":0,\"type\":\"content_block_delta\"}"@;
            assert(no_lf(a));
            assert(no_lf(c));
            lemma_quoted_no_lf(x@);
            lemma_no_lf_add(a, quoted(x@));
            lemma_no_lf_add(a + quoted(x@), c);
        },
        SseEvent::ContentBlockStart => {
            assert(no_lf(event_data(e)));
        },
        SseEvent::ContentBlockStop => {
            assert(no_lf(event_data(e)));
        },
        SseEvent::MessageDelta => {
            assert(no_lf(event_data(e)));
        },
        SseEvent::MessageDeltaTool => {
            assert(no_lf(event_data(e)));
        },
        SseEvent::MessageStop => {
            assert(no_lf(event_data(e)));
        },
    }
}

/// An event goes out as a line that names it, a line that holds its data,
/// and an empty line: neither the name nor the data holds a line feed, so
/// the text has exactly three, and a payload's own line feeds go out
/// escaped.
pub proof fn lemma_rendered_lines(e: SseEvent)
    ensures
        rendered(e) == "event: "@ + event_name(e) + "\ndata: "@ + event_data(e) + "\n\n"@,
        no_lf(event_name(e)),
        no_lf(event_data(e)),
        lf_count(rendered(e)) == 3,
{
    reveal_strlit("event: ");
    reveal_strlit("\ndata: ");
    reveal_strlit("\n\n");
    reveal_strlit("message_start");
    reveal_strlit("content_block_start");
    reveal_strlit("content_block_delta");
    reveal_strlit("content_block_stop");
    reveal_strlit("message_delta");
    reveal_strlit("message_stop");
    lemma_event_data_no_lf(e);
    assert(no_lf(event_name(e)));
    let a = "event: "@;
    let b = event_name(e);
    let c = "\ndata: "@;
    let d = event_data(e);
    let f = "\n\n"@;
    assert(no_lf(a));
    lemma_no_lf_count(a);
    lemma_no_lf_count(b);
    lemma_no_lf_count(d);
    assert(lf_count(c) == 1) by {
        reveal_with_fuel(lf_count, 8);
    }
    assert(lf_count(f) == 2) by {
        reveal_with_fuel(lf_count, 3);
    }
    lemma_lf_count_add(a, b);
    lemma_lf_count_add(a + b, c);
    lemma_lf_count_add(a + b + c, d);
    lemma_lf_count_add(a + b + c + d, f);
}


/// The member that names an event's type inside its data.
pub open spec fn type_member(name: Seq<char>) -> Seq<char> {
    "\"type\":\""@ + name + "\""@
}

proof fn lemma_contains_after(p: Seq<char>, c: Seq<char>, n: Seq<char>)
    requires
        contains_seq(c, n),
    ensures
        contains_seq(p + c, n),
{
    let i = choose|i: int| occurs_at(c, n, i);
    assert((p + c).subrange(p.len() + i, p.len() + i + n.len()) =~= c.subrange(i, i + n.len()));
    assert(occurs_at(p + c, n, p.len() + i));
}

/// An event's data names the event's type: it holds the member `"type"`
/// whose value is the event's name.
pub proof fn lemma_data_names_type(e: SseEvent)
    ensures
        contains_seq(event_data(e), type_member(event_name(e))),
{
    reveal_strlit("\"type\":\"");
    reveal_strlit("\"");
    reveal_strlit("message_start");
    reveal_strlit("content_block_start");
    reveal_strlit("content_block_delta");
    reveal_strlit("content_block_stop");
    reveal_strlit("message_delta");
    reveal_strlit("message_stop");
    reveal_strlit(",\"input\":{},\"name\":");
    reveal_strlit(",\"model\":");
    reveal_strlit(",\"role\":\"assistant\",\"stop_reason\":null,\"type\":\"message\",\"usage\":{\"input_tokens\":0}},\"type\":\"message_start\"}");
    reveal_strlit(",\"type\":\"input_json_delta\"},\"index\":0,\"type\":\"content_block_delta\"}");
    reveal_strlit(",\"type\":\"text_delta\"},\"index\":0,\"type\":\"content_block_delta\"}");
    reveal_strlit(",\"type\":\"tool_use\"},\"index\":0,\"type\":\"content_block_start\"}");
    reveal_strlit("{\"content_block\":{\"id\":");
    reveal_strlit("{\"content_block\":{\"text\":\"\",\"type\":\"text\"},\"index\":0,\"type\":\"content_block_start\"}");
    reveal_strlit("{\"delta\":{\"partial_json\":");
    reveal_strlit("{\"delta\":{\"stop_reason\":\"end_turn\",\"stop_sequence\":null},\"type\":\"message_delta\",\"usage\":{\"output_tokens\":0}}");
    reveal_strlit("{\"delta\":{\"stop_reason\":\"tool_use\",\"stop_sequence\":null},\"type\":\"message_delta\",\"usage\":{\"output_tokens\":0}}");
    reveal_strlit("{\"delta\":{\"text\":");
    reveal_strlit("{\"index\":0,\"type\":\"content_block_stop\"}");
    reveal_strlit("{\"message\":{\"content\":[],\"id\":");
    reveal_strlit("{\"type\":\"message_stop\"}");
    let tm = type_member(event_name(e));
    match e {
        SseEvent::MessageStart { id, model } => {
            let a = "{\"message\":{\"content\":[],\"id\":"@;
            let b = ",\"model\":"@;
            let c = ",\"role\":\"assistant\",\"stop_reason\":null,\"type\":\"message\",\"usage\":{\"input_tokens\":0}},\"type\":\"message_start\"}"@;
            assert(c.subrange(84, 106) =~= tm);
            assert(occurs_at(c, tm, 84));
            lemma_contains_after(a + quoted(id@) + b + quoted(model@), c, tm);
        },
        SseEvent::ContentBlockStart => {
            let c = "{\"content_block\":{\"text\":\"\",\"type\":\"text\"},\"index\":0,\"type\":\"content_block_start\"}"@;
            assert(c.subrange(53, 81) =~= tm);
            assert(occurs_at(c, tm, 53));
        },
        SseEvent::ToolUseBlockStart { id, name } => {
            let a = "{\"content_block\":{\"id\":"@;
            let b = ",\"input\":{},\"name\":"@;
            let c = ",\"type\":\"tool_use\"},\"index\":0,\"type\":\"content_block_start\"}"@;
            assert(c.subrange(30, 58) =~= tm);
            assert(occurs_at(c, tm, 30));
            lemma_contains_after(a + quoted(id@) + b + quoted(name@), c, tm);
        },
        SseEvent::TextDelta(x) => {
            let a = "{\"delta\":{\"text\":"@;
            let c = ",\"type\":\"text_delta\"},\"index\":0,\"type\":\"content_block_delta\"}"@;
            assert(c.subrange(32, 60) =~= tm);
            assert(occurs_at(c, tm, 32));
            lemma_contains_after(a + quoted(x@), c, tm);
        },
        SseEvent::ToolUseDelta(x) => {
            let a = "{\"delta\":{\"partial_json\":"@;
            let c = ",\"type\":\"input_json_delta\"},\"index\":0,\"type\":\"content_block_delta\"}"@;
            assert(c.subrange(38, 66) =~= tm);
            assert(occurs_at(c, tm, 38));
            lemma_contains_after(a + quoted(x@), c, tm);
        },
        SseEvent::ContentBlockStop => {
            let c = "{\"index\":0,\"type\":\"content_block_stop\"}"@;
            assert(c.subrange(11, 38) =~= tm);
            assert(occurs_at(c, tm, 11));
        },
        SseEvent::MessageDelta => {
            let c = "{\"delta\":{\"stop_reason\":\"end_turn\",\"stop_sequence\":null},\"type\":\"message_delta\",\"usage\":{\"output_tokens\":0}}"@;
            assert(c.subrange(57, 79) =~= tm);
            assert(occurs_at(c, tm, 57));
        },
        SseEvent::MessageDeltaTool => {
            let c = "{\"delta\":{\"stop_reason\":\"tool_use\",\"stop_sequence\":null},\"type\":\"message_delta\",\"usage\":{\"output_tokens\":0}}"@;
            assert(c.subrange(57, 79) =~= tm);
            assert(occurs_at(c, tm, 57));
        },
        SseEvent::MessageStop => {
            let c = "{\"type\":\"message_stop\"}"@;
            assert(c.subrange(1, 22) =~= tm);
            assert(occurs_at(c, tm, 1));
        },
    }
}

} // verus!
