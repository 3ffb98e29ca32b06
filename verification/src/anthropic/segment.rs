//! A user's message, as the text that a prompt quotes.
use vstd::prelude::*;

use super::types::UserSegment;
use crate::text::{join_with, push_str};

verus! {

/// One segment, on a line of its own, in its tag.
pub open spec fn segment_line(s: UserSegment) -> Seq<char> {
    match s {
        UserSegment::Text(t) => "  <text>"@ + t@ + "</text>"@,
        UserSegment::Code(c) => "  <code>"@ + c@ + "</code>"@,
        UserSegment::ToolResult(r) => "  <tool_result>"@ + r@ + "</tool_result>"@,
    }
}

/// The segments, one per line, inside a `<message>` element.
pub open spec fn segments_text(segments: Seq<UserSegment>) -> Seq<char> {
    "<message>\n"@ + join_with(segments.map_values(|s: UserSegment| segment_line(s)), "\n"@)
        + "\n</message>"@
}

/// The segments, one per line, inside a `<message>` element.
pub fn serialize_segments(segments: &[UserSegment]) -> (r: String)
    ensures
        r@ == segments_text(segments@),
{
    let ghost lines = segments@.map_values(|s: UserSegment| segment_line(s));
    let mut inner = String::new();
    let mut i: usize = 0;
    while i < segments.len()
        invariant
            i <= segments@.len(),
            lines == segments@.map_values(|s: UserSegment| segment_line(s)),
            inner@ == join_with(lines.take(i as int), "\n"@),
        decreases segments@.len() - i,
    {
        let ghost before = inner@;
        if i > 0 {
            push_str(&mut inner, "\n");
        }
        match &segments[i] {
            UserSegment::Text(t) => {
                push_str(&mut inner, "  <text>");
                push_str(&mut inner, t.as_str());
                push_str(&mut inner, "</text>");
            },
            UserSegment::Code(c) => {
                push_str(&mut inner, "  <code>");
                push_str(&mut inner, c.as_str());
                push_str(&mut inner, "</code>");
            },
            UserSegment::ToolResult(t) => {
                push_str(&mut inner, "  <tool_result>");
                push_str(&mut inner, t.as_str());
                push_str(&mut inner, "</tool_result>");
            },
        }
        proof {
            assert(lines.take(i + 1).drop_last() =~= lines.take(i as int));
            assert(lines[i as int] == segment_line(segments@[i as int]));
            if i == 0 {
                assert(lines.take(1) =~= seq![lines[0]]);
                assert(inner@ =~= join_with(lines.take(1), "\n"@));
            } else {
                assert(inner@ =~= join_with(lines.take(i as int), "\n"@) + "\n"@ + lines[i as int]);
            }
        }
        i = i + 1;
    }
    proof {
        assert(lines.take(segments@.len() as int) =~= lines);
    }
    let mut r = String::new();
    push_str(&mut r, "<message>\n");
    push_str(&mut r, inner.as_str());
    push_str(&mut r, "\n</message>");
    r
}

} // verus!
