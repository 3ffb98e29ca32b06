//! Filling the prompt templates.
use vstd::prelude::*;

use super::config::PromptsConfig;
use super::utils::{combined_description, combined_spec};
use crate::anthropic::segment::{segments_text, serialize_segments};
use crate::anthropic::types::UserSegment;
use crate::json::{deep_fields, fields_index, lemma_fields_index, JsonValue, JsonView};
use crate::planner::execution::graph::CompressedTool;
use crate::state::EnvironmentContext;
use crate::text::{contains, contains_seq, join, join_with, owned, push_str, replace_all, replaced};

verus! {

/// What a prompt is built from.
pub struct PromptContext<'a> {
    pub tool: Option<&'a JsonValue>,
    pub compressed: Option<&'a CompressedTool>,
    pub user_query: &'a [UserSegment],
    pub env: Option<&'a EnvironmentContext>,
    pub artifact_refs: &'a [(String, String)],
    pub args_hint: Option<&'a JsonValue>,
    pub prompts: &'a PromptsConfig,
}

/// Which prompt to build. The JSON texts that a prompt quotes come along
/// in their compact serialized form: for arguments, the schema that
/// `args_schema` gives and the known arguments; for a tool result, the
/// arguments of the call.
pub enum PromptKind<'a> {
    Compress,
    IntentClassify,
    Args { schema_text: &'a str, hint_text: Option<&'a str> },
    ToolResult { tool_name: &'a str, tool_input_text: &'a str, tool_result: &'a str },
    HashSelect { candidates: &'a str },
}

/// The keys of the members `fs`.
pub open spec fn member_keys(fs: Seq<(Seq<char>, JsonView)>) -> Seq<Seq<char>> {
    fs.map_values(|m: (Seq<char>, JsonView)| m.0)
}

/// The members `fs` whose keys are not among `keys`, in order.
pub open spec fn drop_keys(fs: Seq<(Seq<char>, JsonView)>, keys: Seq<Seq<char>>) -> Seq<
    (Seq<char>, JsonView),
>
    decreases fs.len(),
{
    if fs.len() == 0 {
        Seq::empty()
    } else if keys.contains(fs.last().0) {
        drop_keys(fs.drop_last(), keys)
    } else {
        drop_keys(fs.drop_last(), keys).push(fs.last())
    }
}

/// The schema that an argument prompt shows: the tool's input schema, or
/// an empty object, without the properties whose values are already known.
pub open spec fn args_schema_spec(tool: JsonValue, hint: Option<JsonValue>) -> JsonView {
    let keys = match hint {
        Some(JsonValue::Object(hf)) => member_keys(deep_fields(hf@)),
        _ => Seq::empty(),
    };
    match tool.get_spec("input_schema"@) {
        None => JsonView::Object(Seq::empty()),
        Some(base) => if hint is None {
            base.deep()
        } else {
            match base {
                JsonValue::Object(fs) => match fields_index(fs@, "properties"@) {
                    Some(i) => match fs@[i].1 {
                        JsonValue::Object(ps) => JsonView::Object(
                            deep_fields(fs@).update(
                                i,
                                ("properties"@, JsonView::Object(drop_keys(deep_fields(ps@), keys))),
                            ),
                        ),
                        _ => base.deep(),
                    },
                    None => base.deep(),
                },
                _ => base.deep(),
            }
        },
    }
}

proof fn lemma_deep_fields_index(s: Seq<(String, JsonValue)>, i: int)
    requires
        0 <= i < s.len(),
    ensures
        deep_fields(s).len() == s.len(),
        deep_fields(s)[i] == (s[i].0@, s[i].1.deep()),
    decreases s.len(),
{
    if i < s.len() - 1 {
        lemma_deep_fields_index(s.subrange(0, s.len() - 1), i);
    } else {
        lemma_deep_fields_len(s.subrange(0, s.len() - 1));
    }
}

proof fn lemma_deep_fields_len(s: Seq<(String, JsonValue)>)
    ensures
        deep_fields(s).len() == s.len(),
    decreases s.len(),
{
    if s.len() > 0 {
        lemma_deep_fields_len(s.subrange(0, s.len() - 1));
    }
}

fn keys_of(hint: Option<&JsonValue>) -> (r: Vec<String>)
    ensures
        r@.map_values(|x: String| x@) == match hint {
            Some(JsonValue::Object(hf)) => member_keys(deep_fields(hf@)),
            _ => Seq::empty(),
        },
{
    let mut out: Vec<String> = Vec::new();
    match hint {
        Some(JsonValue::Object(hf)) => {
            let mut i: usize = 0;
            while i < hf.len()
                invariant
                    i <= hf@.len(),
                    out@.map_values(|x: String| x@) == member_keys(deep_fields(hf@.subrange(0, i as int))),
                decreases hf@.len() - i,
            {
                let ghost before = out@;
                out.push(owned(hf[i].0.as_str()));
                proof {
                    let sub = hf@.subrange(0, i + 1);
                    assert(sub.subrange(0, i as int) =~= hf@.subrange(0, i as int));
                    let d = deep_fields(sub);
                    assert(d == deep_fields(hf@.subrange(0, i as int)).push((hf@[i as int].0@, hf@[i as int].1.deep())));
                    assert(member_keys(d) =~= member_keys(deep_fields(hf@.subrange(0, i as int))).push(hf@[i as int].0@));
                    assert(out@.map_values(|x: String| x@) =~= before.map_values(|x: String| x@).push(hf@[i as int].0@));
                }
                i = i + 1;
            }
            proof {
                assert(hf@.subrange(0, hf@.len() as int) =~= hf@);
            }
        },
        _ => {
            proof {
                assert(out@.map_values(|x: String| x@) =~= Seq::<Seq<char>>::empty());
            }
        },
    }
    out
}

fn key_listed(keys: &Vec<String>, k: &str) -> (b: bool)
    ensures
        b == keys@.map_values(|x: String| x@).contains(k@),
{
    let ghost kv = keys@.map_values(|x: String| x@);
    let mut i: usize = 0;
    while i < keys.len()
        invariant
            i <= keys@.len(),
            kv == keys@.map_values(|x: String| x@),
            forall|j: int| 0 <= j < i ==> kv[j] != k@,
        decreases keys@.len() - i,
    {
        if crate::text::str_eq(keys[i].as_str(), k) {
            proof {
                assert(kv[i as int] == k@);
            }
            return true;
        }
        i = i + 1;
    }
    false
}

fn without_keys(ps: &Vec<(String, JsonValue)>, keys: &Vec<String>) -> (r: Vec<(String, JsonValue)>)
    ensures
        deep_fields(r@) == drop_keys(deep_fields(ps@), keys@.map_values(|x: String| x@)),
{
    let ghost kv = keys@.map_values(|x: String| x@);
    let mut out: Vec<(String, JsonValue)> = Vec::new();
    let mut i: usize = 0;
    while i < ps.len()
        invariant
            i <= ps@.len(),
            kv == keys@.map_values(|x: String| x@),
            deep_fields(out@) == drop_keys(deep_fields(ps@.subrange(0, i as int)), kv),
        decreases ps@.len() - i,
    {
        let ghost sub = ps@.subrange(0, i + 1);
        proof {
            assert(sub.subrange(0, i as int) =~= ps@.subrange(0, i as int));
            lemma_deep_fields_len(sub);
            assert(deep_fields(sub).drop_last() == deep_fields(ps@.subrange(0, i as int)));
            assert(deep_fields(sub).last() == (ps@[i as int].0@, ps@[i as int].1.deep()));
        }
        if !key_listed(keys, ps[i].0.as_str()) {
            let k = owned(ps[i].0.as_str());
            let v = ps[i].1.duplicate();
            let ghost before = out@;
            out.push((k, v));
            proof {
                assert(out@.subrange(0, out@.len() - 1) =~= before);
            }
        }
        i = i + 1;
    }
    proof {
        assert(ps@.subrange(0, ps@.len() as int) =~= ps@);
    }
    out
}

/// The schema that an argument prompt shows, for the app to serialize.
pub fn args_schema(tool: &JsonValue, hint: Option<&JsonValue>) -> (r: JsonValue)
    ensures
        r.deep() == args_schema_spec(
            *tool,
            match hint {
                Some(h) => Some(*h),
                None => None,
            },
        ),
{
    let keys = keys_of(hint);
    let base = match tool.get("input_schema") {
        Some(s) => s,
        None => {
            let empty = JsonValue::Object(Vec::new());
            proof {
                assert(empty.deep() == JsonView::Object(Seq::empty()));
            }
            return empty;
        },
    };
    if hint.is_none() {
        return base.duplicate();
    }
    match base {
        JsonValue::Object(fs) => {
            let mut idx: usize = 0;
            while idx < fs.len() && !crate::text::str_eq(fs[idx].0.as_str(), "properties")
                invariant
                    idx <= fs@.len(),
                    forall|j: int| 0 <= j < idx ==> fs@[j].0@ != "properties"@,
                decreases fs@.len() - idx,
            {
                idx = idx + 1;
            }
            proof {
                lemma_fields_index(fs@, "properties"@);
            }
            if idx == fs.len() {
                return base.duplicate();
            }
            match &fs[idx].1 {
                JsonValue::Object(ps) => {
                    let filtered = without_keys(ps, &keys);
                    let props = JsonValue::Object(filtered);
                    let ghost target = deep_fields(fs@).update(
                        idx as int,
                        ("properties"@, props.deep()),
                    );
                    proof {
                        lemma_deep_fields_len(fs@);
                    }
                    let mut out: Vec<(String, JsonValue)> = Vec::new();
                    let mut j: usize = 0;
                    while j < fs.len()
                        invariant
                            j <= fs@.len(),
                            idx < fs@.len(),
                            target.len() == fs@.len(),
                            deep_fields(out@) == target.subrange(0, j as int),
                        decreases fs@.len() - j,
                    {
                        let ghost before = out@;
                        if j == idx {
                            out.push((owned("properties"), props.duplicate()));
                        } else {
                            let k = owned(fs[j].0.as_str());
                            let v = fs[j].1.duplicate();
                            out.push((k, v));
                            proof {
                                lemma_deep_fields_index(fs@, j as int);
                            }
                        }
                        proof {
                            assert(out@.subrange(0, out@.len() - 1) =~= before);
                            assert(target.subrange(0, j + 1) =~= target.subrange(0, j as int).push(target[j as int]));
                        }
                        j = j + 1;
                    }
                    proof {
                        assert(target.subrange(0, fs@.len() as int) =~= target);
                    }
                    JsonValue::Object(out)
                },
                _ => base.duplicate(),
            }
        },
        _ => base.duplicate(),
    }
}

/// The environment as an argument prompt states it: nothing when the
/// working directory is unknown.
pub open spec fn env_context_spec(env: EnvironmentContext) -> Seq<char> {
    if env.cwd@.len() == 0 {
        Seq::empty()
    } else {
        "Environment:\n- cwd: "@ + env.cwd@ + "\n- platform: "@ + env.platform@ + "\n- shell: "@
            + env.shell@ + "\n"@
    }
}

pub open spec fn strings_of(v: Vec<String>) -> Seq<Seq<char>> {
    v@.map_values(|x: String| x@)
}

/// What a compressed tool says it can do, then its limits, one per line.
pub open spec fn rules_spec(c: CompressedTool) -> Seq<char> {
    join_with(
        strings_of(c.capabilities) + strings_of(c.limits).map_values(|l: Seq<char>| "LIMIT: "@ + l),
        "\n"@,
    )
}

/// The file contents among the artifacts, each in an `<artifact>` element.
pub open spec fn artifact_blocks(refs: Seq<(String, String)>) -> Seq<Seq<char>>
    decreases refs.len(),
{
    if refs.len() == 0 {
        Seq::empty()
    } else {
        let rest = artifact_blocks(refs.drop_last());
        let (r, c) = refs.last();
        if contains_seq(r@, "file_content"@) {
            rest.push("<artifact ref=\""@ + r@ + "\">\n"@ + c@ + "\n</artifact>"@)
        } else {
            rest
        }
    }
}

/// The known arguments, as an argument prompt states them.
pub open spec fn resolved_args_spec(hint_text: Option<Seq<char>>) -> Seq<char> {
    match hint_text {
        Some(h) => "Known values (for context):\n"@ + h + "\n"@,
        None => Seq::empty(),
    }
}

pub open spec fn opt_text(o: Option<&str>) -> Option<Seq<char>> {
    match o {
        Some(s) => Some(s@),
        None => None,
    }
}

/// The prompt of kind `kind`: its template with each placeholder replaced.
pub open spec fn prompt_spec(ctx: PromptContext, kind: PromptKind) -> Seq<char> {
    let uq = segments_text(ctx.user_query@);
    match kind {
        PromptKind::Compress => {
            let tool = *ctx.tool->0;
            let name = match tool.str_field("name"@) {
                Some(n) => n,
                None => Seq::empty(),
            };
            replaced(replaced(ctx.prompts.compress@, "{tool_name}"@, name), "{combined}"@, combined_spec(tool))
        },
        PromptKind::IntentClassify => replaced(ctx.prompts.intent_classify@, "{user_query}"@, uq),
        PromptKind::Args { schema_text, hint_text } => {
            let t = replaced(ctx.prompts.args@, "{user_query}"@, uq);
            let t = replaced(t, "{env_context}"@, env_context_spec(*ctx.env->0));
            let t = replaced(t, "{file_artifacts}"@, join_with(artifact_blocks(ctx.artifact_refs@), "\n"@));
            let t = replaced(t, "{resolved_args}"@, resolved_args_spec(opt_text(hint_text)));
            let t = replaced(t, "{rules}"@, rules_spec(*ctx.compressed->0));
            replaced(t, "{schema}"@, schema_text@)
        },
        PromptKind::ToolResult { tool_name, tool_input_text, tool_result } => {
            let t = replaced(ctx.prompts.tool_result@, "{user_query}"@, uq);
            let t = replaced(t, "{tool_name}"@, tool_name@);
            let t = replaced(t, "{tool_input}"@, tool_input_text@);
            replaced(t, "{tool_result}"@, "<tool_result>\n"@ + tool_result@ + "\n</tool_result>"@)
        },
        PromptKind::HashSelect { candidates } => replaced(
            replaced(ctx.prompts.hash_select@, "{user_query}"@, uq),
            "{candidates}"@,
            candidates@,
        ),
    }
}

fn rules_text(c: &CompressedTool) -> (r: String)
    ensures
        r@ == rules_spec(*c),
{
    let mut parts: Vec<String> = Vec::new();
    let mut i: usize = 0;
    while i < c.capabilities.len()
        invariant
            i <= c.capabilities@.len(),
            parts@.map_values(|x: String| x@) == strings_of(c.capabilities).take(i as int),
        decreases c.capabilities@.len() - i,
    {
        let ghost before = parts@;
        parts.push(owned(c.capabilities[i].as_str()));
        proof {
            assert(parts@.map_values(|x: String| x@) =~= strings_of(c.capabilities).take(i + 1));
        }
        i = i + 1;
    }
    let ghost caps = strings_of(c.capabilities);
    proof {
        assert(caps.take(c.capabilities@.len() as int) =~= caps);
    }
    let ghost lims = strings_of(c.limits).map_values(|l: Seq<char>| "LIMIT: "@ + l);
    let mut j: usize = 0;
    while j < c.limits.len()
        invariant
            j <= c.limits@.len(),
            lims == strings_of(c.limits).map_values(|l: Seq<char>| "LIMIT: "@ + l),
            parts@.map_values(|x: String| x@) == caps + lims.take(j as int),
        decreases c.limits@.len() - j,
    {
        let mut l = String::new();
        push_str(&mut l, "LIMIT: ");
        push_str(&mut l, c.limits[j].as_str());
        let ghost lv = l@;
        let ghost before = parts@;
        parts.push(l);
        proof {
            assert(strings_of(c.limits)[j as int] == c.limits@[j as int]@);
            assert(lv == lims[j as int]);
            assert(parts@ == before.push(parts@.last()));
            assert(parts@.map_values(|x: String| x@) =~= before.map_values(|x: String| x@).push(lv));
            assert(lims.take(j + 1) =~= lims.take(j as int).push(lims[j as int]));
            assert(parts@.map_values(|x: String| x@) =~= caps + lims.take(j + 1));
        }
        j = j + 1;
    }
    proof {
        assert(lims.take(c.limits@.len() as int) =~= lims);
        reveal_strlit("\n");
    }
    join(&parts, "\n")
}

fn artifacts_text(refs: &[(String, String)]) -> (r: String)
    ensures
        r@ == join_with(artifact_blocks(refs@), "\n"@),
{
    let mut parts: Vec<String> = Vec::new();
    let mut i: usize = 0;
    while i < refs.len()
        invariant
            i <= refs@.len(),
            parts@.map_values(|x: String| x@) == artifact_blocks(refs@.take(i as int)),
        decreases refs@.len() - i,
    {
        proof {
            assert(refs@.take(i + 1).drop_last() =~= refs@.take(i as int));
        }
        let (r, c) = &refs[i];
        if contains(r.as_str(), "file_content") {
            let mut b = String::new();
            push_str(&mut b, "<artifact ref=\"");
            push_str(&mut b, r.as_str());
            push_str(&mut b, "\">\n");
            push_str(&mut b, c.as_str());
            push_str(&mut b, "\n</artifact>");
            let ghost bv = b@;
            let ghost before = parts@;
            parts.push(b);
            proof {
                assert(parts@.map_values(|x: String| x@) =~= before.map_values(|x: String| x@).push(bv));
            }
        }
        i = i + 1;
    }
    proof {
        assert(refs@.take(refs@.len() as int) =~= refs@);
        reveal_strlit("\n");
    }
    join(&parts, "\n")
}

impl<'a> PromptContext<'a> {
    /// The prompt of kind `kind`.
    pub fn build(&self, kind: PromptKind<'a>) -> (r: String)
        requires
            kind is Compress ==> self.tool is Some,
            kind is Args ==> self.tool is Some && self.compressed is Some && self.env is Some,
        ensures
            r@ == prompt_spec(*self, kind),
    {
        proof {
            reveal_strlit("{tool_name}");
            reveal_strlit("{combined}");
            reveal_strlit("{user_query}");
            reveal_strlit("{env_context}");
            reveal_strlit("{file_artifacts}");
            reveal_strlit("{resolved_args}");
            reveal_strlit("{rules}");
            reveal_strlit("{schema}");
            reveal_strlit("{tool_input}");
            reveal_strlit("{tool_result}");
            reveal_strlit("{candidates}");
        }
        let user_query = serialize_segments(self.user_query);
        match kind {
            PromptKind::Compress => {
                let tool = self.tool.unwrap();
                let combined = combined_description(tool);
                let name = match tool.get_str("name") {
                    Some(n) => owned(n),
                    None => String::new(),
                };
                let t = replace_all(self.prompts.compress.as_str(), "{tool_name}", name.as_str());
                replace_all(t.as_str(), "{combined}", combined.as_str())
            },
            PromptKind::IntentClassify => replace_all(
                self.prompts.intent_classify.as_str(),
                "{user_query}",
                user_query.as_str(),
            ),
            PromptKind::Args { schema_text, hint_text } => {
                let compressed = self.compressed.unwrap();
                let env = self.env.unwrap();
                let env_context = if env.cwd.as_str().is_empty() {
                    String::new()
                } else {
                    let mut e = String::new();
                    push_str(&mut e, "Environment:\n- cwd: ");
                    push_str(&mut e, env.cwd.as_str());
                    push_str(&mut e, "\n- platform: ");
                    push_str(&mut e, env.platform.as_str());
                    push_str(&mut e, "\n- shell: ");
                    push_str(&mut e, env.shell.as_str());
                    push_str(&mut e, "\n");
                    e
                };
                let rules = rules_text(compressed);
                let resolved_args = match hint_text {
                    Some(h) => {
                        let mut e = String::new();
                        push_str(&mut e, "Known values (for context):\n");
                        push_str(&mut e, h);
                        push_str(&mut e, "\n");
                        e
                    },
                    None => String::new(),
                };
                let file_artifacts = artifacts_text(self.artifact_refs);
                let t = replace_all(self.prompts.args.as_str(), "{user_query}", user_query.as_str());
                let t = replace_all(t.as_str(), "{env_context}", env_context.as_str());
                let t = replace_all(t.as_str(), "{file_artifacts}", file_artifacts.as_str());
                let t = replace_all(t.as_str(), "{resolved_args}", resolved_args.as_str());
                let t = replace_all(t.as_str(), "{rules}", rules.as_str());
                replace_all(t.as_str(), "{schema}", schema_text)
            },
            PromptKind::ToolResult { tool_name, tool_input_text, tool_result } => {
                let mut block = String::new();
                push_str(&mut block, "<tool_result>\n");
                push_str(&mut block, tool_result);
                push_str(&mut block, "\n</tool_result>");
                let t = replace_all(self.prompts.tool_result.as_str(), "{user_query}", user_query.as_str());
                let t = replace_all(t.as_str(), "{tool_name}", tool_name);
                let t = replace_all(t.as_str(), "{tool_input}", tool_input_text);
                replace_all(t.as_str(), "{tool_result}", block.as_str())
            },
            PromptKind::HashSelect { candidates } => {
                let t = replace_all(self.prompts.hash_select.as_str(), "{user_query}", user_query.as_str());
                replace_all(t.as_str(), "{candidates}", candidates)
            },
        }
    }
}

} // verus!
