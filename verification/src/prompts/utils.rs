//! The text that describes a tool: its description and those of its
//! arguments.
use vstd::prelude::*;

use crate::json::{JsonValue};
use crate::text::{join, join_with, owned, push_str};

verus! {

/// The non-empty `description` strings of a schema and of everything in
/// it, depth first, each object's own before those of its members.
pub open spec fn schema_descs(v: JsonValue) -> Seq<Seq<char>>
    decreases v,
{
    match v {
        JsonValue::Object(f) => {
            let own: Seq<Seq<char>> = match v.str_field("description"@) {
                Some(d) => if d.len() > 0 {
                    seq![d]
                } else {
                    Seq::empty()
                },
                None => Seq::empty(),
            };
            own + fields_descs(f@)
        },
        JsonValue::Array(a) => values_descs(a@),
        _ => Seq::empty(),
    }
}

/// The descriptions within the members `s`, in order.
pub open spec fn fields_descs(s: Seq<(String, JsonValue)>) -> Seq<Seq<char>>
    decreases s,
{
    if s.len() == 0 {
        Seq::empty()
    } else {
        fields_descs(s.subrange(0, s.len() - 1)) + schema_descs(s[s.len() - 1].1)
    }
}

/// The descriptions within the values `s`, in order.
pub open spec fn values_descs(s: Seq<JsonValue>) -> Seq<Seq<char>>
    decreases s,
{
    if s.len() == 0 {
        Seq::empty()
    } else {
        values_descs(s.subrange(0, s.len() - 1)) + schema_descs(s[s.len() - 1])
    }
}

/// Appends the descriptions within `val` to `out`.
pub fn extract_schema_descriptions(val: &JsonValue, out: &mut Vec<String>)
    ensures
        final(out)@.map_values(|x: String| x@) == old(out)@.map_values(|x: String| x@) + schema_descs(
            *val,
        ),
    decreases val,
{
    let ghost start = out@.map_values(|x: String| x@);
    match val {
        JsonValue::Object(f) => {
            match val.get_str("description") {
                Some(d) => {
                    if !d.is_empty() {
                        let ghost before = out@;
                        out.push(owned(d));
                        proof {
                            assert(out@.map_values(|x: String| x@) =~= before.map_values(|x: String| x@).push(d@));
                        }
                    }
                },
                None => {},
            }
            let ghost mid = out@.map_values(|x: String| x@);
            let mut i: usize = 0;
            while i < f.len()
                invariant
                    i <= f@.len(),
                    out@.map_values(|x: String| x@) == mid + fields_descs(f@.subrange(0, i as int)),
                decreases f@.len() - i,
            {
                proof {
                    vstd::std_specs::vec::axiom_vec_index_decreases(*f, i as int);
                    assert(f@.subrange(0, i + 1).subrange(0, i as int) =~= f@.subrange(0, i as int));
                }
                extract_schema_descriptions(&f[i].1, out);
                i = i + 1;
            }
            proof {
                assert(f@.subrange(0, f@.len() as int) =~= f@);
                assert(out@.map_values(|x: String| x@) =~= start + schema_descs(*val));
            }
        },
        JsonValue::Array(a) => {
            let mut i: usize = 0;
            proof {
                assert(start + values_descs(a@.subrange(0, 0)) =~= start);
            }
            while i < a.len()
                invariant
                    i <= a@.len(),
                    out@.map_values(|x: String| x@) == start + values_descs(a@.subrange(0, i as int)),
                decreases a@.len() - i,
            {
                proof {
                    vstd::std_specs::vec::axiom_vec_index_decreases(*a, i as int);
                    assert(a@.subrange(0, i + 1).subrange(0, i as int) =~= a@.subrange(0, i as int));
                }
                extract_schema_descriptions(&a[i], out);
                i = i + 1;
            }
            proof {
                assert(a@.subrange(0, a@.len() as int) =~= a@);
            }
        },
        _ => {
            proof {
                assert(start + Seq::<Seq<char>>::empty() =~= start);
            }
        },
    }
}

/// The description of a tool, followed by the descriptions within its
/// input schema, one per line.
pub open spec fn combined_spec(tool: JsonValue) -> Seq<char> {
    let d = match tool.str_field("description"@) {
        Some(d) => d,
        None => Seq::empty(),
    };
    let descs = match tool.get_spec("input_schema"@) {
        Some(s) => schema_descs(s),
        None => Seq::empty(),
    };
    if descs.len() == 0 {
        d
    } else {
        d + "\n"@ + join_with(descs, "\n"@)
    }
}

/// The description of a tool, followed by the descriptions within its
/// input schema, one per line.
pub fn combined_description(tool: &JsonValue) -> (r: String)
    ensures
        r@ == combined_spec(*tool),
{
    proof {
        reveal_strlit("\n");
    }
    let description = match tool.get_str("description") {
        Some(d) => owned(d),
        None => String::new(),
    };
    let mut descs: Vec<String> = Vec::new();
    match tool.get("input_schema") {
        Some(schema) => {
            extract_schema_descriptions(schema, &mut descs);
            proof {
                assert(Seq::<Seq<char>>::empty() + schema_descs(*schema) =~= schema_descs(*schema));
            }
        },
        None => {},
    }
    if descs.len() == 0 {
        description
    } else {
        let mut s = description;
        push_str(&mut s, "\n");
        let rest = join(&descs, "\n");
        push_str(&mut s, rest.as_str());
        s
    }
}

} // verus!
