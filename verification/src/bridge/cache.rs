//! The tools that a client offers, each with what a language model made of
//! it and what it can do; and the registry of those capabilities.
use vstd::prelude::*;

use super::tools::{normalize_spec, all_tool_kinds, tool_table, ToolEntry, ToolStatus};
use crate::anthropic::types::UserSegment;
use crate::json::{
    count_open_brackets, open_brackets, repair_json, repaired_json, JsonValue, JsonView,
    REPAIR_BRACKET_LIMIT,
};
use crate::prompts::config::PromptsConfig;
use crate::prompts::fill::{PromptContext, PromptKind};
use crate::prompts::utils::combined_spec;
use crate::planner::capability::classifier::first_kind_named;
use crate::planner::capability::kind::ToolCapability;
use crate::planner::capability::registry::{names_with_kind, CapabilityRegistry};
use crate::planner::execution::graph::CompressedTool;
use crate::strmap::{entries_map, StrMap};
use crate::text::{lex_sorted, owned, replaced, sort_strings, views};

verus! {

/// A tool as the cache keeps it.
pub struct CachedToolEntry {
    pub compressed: CompressedTool,
    pub capability: Option<ToolCapability>,
}

/// The tools of a session, by name, and their capabilities.
pub struct ToolCache {
    pub map: StrMap<CachedToolEntry>,
    pub registry: CapabilityRegistry,
}

/// A tool description takes part in the cache unless its name is that of
/// a tool the bridge leaves out.
pub open spec fn participates_spec(tool: JsonValue) -> bool {
    match tool.str_field("name"@) {
        Some(n) => match first_kind_named(all_tool_kinds(), normalize_spec(n)) {
            Some(k) => tool_table(k).status != ToolStatus::Excluded,
            None => true,
        },
        None => true,
    }
}

/// The named entries that have a capability, with it, in order.
pub open spec fn with_capability(es: Seq<(String, CachedToolEntry)>) -> Seq<(String, ToolCapability)>
    decreases es.len(),
{
    if es.len() == 0 {
        Seq::empty()
    } else {
        let rest = with_capability(es.drop_last());
        match es.last().1.capability {
            Some(c) => rest.push((es.last().0, c)),
            None => rest,
        }
    }
}

/// The names of `s`, as values, with their capabilities.
pub open spec fn named_caps(s: Seq<(String, ToolCapability)>) -> Seq<(Seq<char>, ToolCapability)> {
    s.map_values(|e: (String, ToolCapability)| (e.0@, e.1))
}

/// The keys of the members `ps`.
pub open spec fn key_names(ps: Seq<(String, JsonValue)>) -> Seq<Seq<char>> {
    ps.map_values(|p: (String, JsonValue)| p.0@)
}

/// The property names of a tool's input schema, in the order of the
/// schema.
pub open spec fn property_names(tool: JsonValue) -> Seq<Seq<char>> {
    match tool.get_spec("input_schema"@) {
        Some(s) => match s.get_spec("properties"@) {
            Some(JsonValue::Object(ps)) => key_names(ps@),
            _ => Seq::empty(),
        },
        None => Seq::empty(),
    }
}

impl ToolCache {
    /// Whether a tool description takes part in the cache.
    pub fn participates(tool: &JsonValue) -> (b: bool)
        ensures
            b == participates_spec(*tool),
    {
        match tool.get_str("name") {
            Some(n) => match ToolEntry::from_name(n) {
                Some(e) => e.status != ToolStatus::Excluded,
                None => true,
            },
            None => true,
        }
    }

    /// The description of a tool, or nothing: what its cache entry is
    /// keyed on, with its property names.
    pub fn description_of(tool: &JsonValue) -> (r: String)
        ensures
            r@ == match tool.str_field("description"@) {
                Some(d) => d,
                None => Seq::empty(),
            },
    {
        match tool.get_str("description") {
            Some(d) => owned(d),
            None => String::new(),
        }
    }

    /// The property names of a tool's input schema.
    pub fn property_names_of(tool: &JsonValue) -> (r: Vec<String>)
        ensures
            r@.map_values(|x: String| x@) == property_names(*tool),
    {
        let mut out: Vec<String> = Vec::new();
        match tool.get("input_schema") {
            Some(s) => match s.get("properties") {
                Some(JsonValue::Object(ps)) => {
                    let mut i: usize = 0;
                    while i < ps.len()
                        invariant
                            i <= ps@.len(),
                            out@.map_values(|x: String| x@) == key_names(ps@.take(i as int)),
                        decreases ps@.len() - i,
                    {
                        let ghost before = out@;
                        out.push(owned(ps[i].0.as_str()));
                        proof {
                            let ov = out@.map_values(|x: String| x@);
                            let want = key_names(ps@.take(i + 1));
                            assert(ov.len() == want.len());
                            assert forall|k: int| 0 <= k < ov.len() implies ov[k] == want[k] by {
                                if k < i {
                                    assert(ov[k] == before.map_values(|x: String| x@)[k]);
                                }
                            }
                            assert(ov =~= want);
                        }
                        i = i + 1;
                    }
                    proof {
                        assert(ps@.take(ps@.len() as int) =~= ps@);
                    }
                },
                _ => {
                    proof {
                        assert(out@.map_values(|x: String| x@) =~= Seq::<Seq<char>>::empty());
                    }
                },
            },
            None => {
                proof {
                    assert(out@.map_values(|x: String| x@) =~= Seq::<Seq<char>>::empty());
                }
            },
        }
        out
    }

    /// The property names of a tool's input schema, in lexicographic order:
    /// with its description, what its cache entry is keyed on.
    pub fn sorted_property_names(tool: &JsonValue) -> (r: Vec<String>)
        ensures
            views(r@).to_multiset() == property_names(*tool).to_multiset(),
            lex_sorted(views(r@)),
    {
        let names = Self::property_names_of(tool);
        proof {
            assert(views(names@) == property_names(*tool));
        }
        sort_strings(names)
    }

    /// Whether a stored entry may be used: its key is the one the tool has
    /// now.
    pub fn is_hit(stored_hash: Option<&str>, hash: &str) -> (b: bool)
        ensures
            b == (stored_hash matches Some(h) && h@ == hash@),
    {
        match stored_hash {
            Some(h) => crate::text::str_eq(h, hash),
            None => false,
        }
    }

    /// The cache of the named entries, a later entry under a name taking
    /// the place of an earlier one, and the registry of the capabilities
    /// of its entries, in the cache's order.
    pub fn assemble(entries: Vec<(String, CachedToolEntry)>) -> (r: ToolCache)
        ensures
            r.map.wf(),
            r.map@ == entries_map(entries@),
            r.registry.wf(),
            r.registry.by_name@ == entries_map(with_capability(r.map.entry_seq())),
            forall|k| #[trigger]
                r.registry.kind_names(k) == (if names_with_kind(with_capability(r.map.entry_seq()), k).len() > 0 {
                    Some(names_with_kind(with_capability(r.map.entry_seq()), k))
                } else {
                    None
                }),
    {
        let mut map: StrMap<CachedToolEntry> = StrMap::new();
        let mut entries = entries;
        let n = entries.len();
        let ghost all = entries@;
        let mut i: usize = 0;
        proof {
            crate::strmap::StrMap::<CachedToolEntry>::lemma_view(&map);
            assert(all.take(0) =~= Seq::<(String, CachedToolEntry)>::empty());
        }
        while i < n
            invariant
                n == all.len(),
                i <= n,
                entries@ == all.skip(i as int),
                map.wf(),
                map@ == entries_map(all.take(i as int)),
            decreases n - i,
        {
            let (name, entry) = entries.remove(0);
            proof {
                assert(all.skip(i as int)[0] == all[i as int]);
                assert(entries@ =~= all.skip(i + 1));
                assert(all.take(i + 1).drop_last() =~= all.take(i as int));
                assert(all.take(i + 1).last() == all[i as int]);
            }
            map.insert(name, entry);
            i = i + 1;
        }
        proof {
            assert(all.take(n as int) =~= all);
        }
        let es = map.entries();
        let ghost ev = es@;
        let mut caps: Vec<(String, ToolCapability)> = Vec::new();
        let mut j: usize = 0;
        proof {
            assert(ev.take(0) =~= Seq::<(String, CachedToolEntry)>::empty());
        }
        while j < es.len()
            invariant
                j <= es@.len(),
                ev == es@,
                caps@ == with_capability(ev.take(j as int)),
            decreases es@.len() - j,
        {
            proof {
                assert(ev.take(j + 1).drop_last() =~= ev.take(j as int));
                assert(ev.take(j + 1).last() == ev[j as int]);
            }
            match es[j].1.capability {
                Some(c) => {
                    let name = es[j].0.clone();
                    caps.push((name, c));
                },
                None => {},
            }
            j = j + 1;
        }
        proof {
            assert(ev.take(es@.len() as int) =~= ev);
        }
        let registry = CapabilityRegistry::build(caps);
        ToolCache { map, registry }
    }
}

fn copy_strings(v: &Vec<String>) -> (r: Vec<String>)
    ensures
        views(r@) == views(v@),
{
    let mut out: Vec<String> = Vec::new();
    let mut i: usize = 0;
    while i < v.len()
        invariant
            i <= v@.len(),
            views(out@) == views(v@.take(i as int)),
        decreases v@.len() - i,
    {
        let ghost before = out@;
        out.push(owned(v[i].as_str()));
        proof {
            let ov = views(out@);
            let want = views(v@.take(i + 1));
            assert(ov.len() == want.len());
            assert forall|k: int| 0 <= k < ov.len() implies ov[k] == want[k] by {
                if k < i {
                    assert(ov[k] == views(before)[k]);
                }
            }
            assert(ov =~= want);
        }
        i = i + 1;
    }
    proof {
        assert(v@.take(v@.len() as int) =~= v@);
    }
    out
}

/// The compressed form of a tool, as values.
pub open spec fn compressed_view(c: CompressedTool) -> (Seq<Seq<char>>, Seq<Seq<char>>, Seq<Seq<char>>, Seq<Seq<char>>) {
    (views(c.capabilities@), views(c.limits@), views(c.inputs@), views(c.outputs@))
}

impl ToolCache {
    /// A copy of what the cache holds of the tool `name`, if anything.
    pub fn compressed_for(&self, name: &str) -> (r: Option<CompressedTool>)
        requires
            self.map.wf(),
        ensures
            match r {
                Some(c) => self.map@.contains_key(name@) && compressed_view(c) == compressed_view(
                    self.map@[name@].compressed,
                ),
                None => !self.map@.contains_key(name@),
            },
    {
        match self.map.get(name) {
            Some(e) => Some(
                CompressedTool {
                    capabilities: copy_strings(&e.compressed.capabilities),
                    limits: copy_strings(&e.compressed.limits),
                    inputs: copy_strings(&e.compressed.inputs),
                    outputs: copy_strings(&e.compressed.outputs),
                },
            ),
            None => None,
        }
    }
}

impl ToolEntry {
    /// A copy of what the session's cache, once built, holds of the tool
    /// `tool_name`.
    pub fn resolve_compressed(cache: Option<&ToolCache>, tool_name: &str) -> (r: Option<CompressedTool>)
        requires
            cache matches Some(c) ==> c.map.wf(),
        ensures
            match cache {
                None => r is None,
                Some(c) => match r {
                    Some(x) => c.map@.contains_key(tool_name@) && compressed_view(x) == compressed_view(
                        c.map@[tool_name@].compressed,
                    ),
                    None => !c.map@.contains_key(tool_name@),
                },
            },
    {
        match cache {
            Some(c) => c.compressed_for(tool_name),
            None => None,
        }
    }
}

/// What filling the cache does with an offered tool.
pub enum CacheStep {
    /// Nothing: the tool takes no part, or has no name.
    Skip,
    /// The stored entry of the tool named so is still good.
    Reuse(String),
    /// The tool named so is compressed anew with the prompt.
    Compress(String, String),
}

/// The prompt that asks a language model to compress `tool`.
pub open spec fn compress_prompt(tool: JsonValue, prompts: PromptsConfig) -> Seq<char> {
    let name = match tool.str_field("name"@) {
        Some(n) => n,
        None => Seq::empty(),
    };
    replaced(replaced(prompts.compress@, "{tool_name}"@, name), "{combined}"@, combined_spec(tool))
}

impl ToolCache {
    /// The document in a language model's reply to a compress prompt: the
    /// reply repaired into JSON, or `null` when it is past repair or holds
    /// more opening brackets than the repair may meet.
    pub fn reply_document(raw: &str) -> (r: JsonValue)
        ensures
            r.deep() == if open_brackets(raw@) > REPAIR_BRACKET_LIMIT {
                JsonView::Null
            } else {
                match repaired_json(raw@) {
                    Some(v) => v,
                    None => JsonView::Null,
                }
            },
    {
        if count_open_brackets(raw) > REPAIR_BRACKET_LIMIT {
            return JsonValue::Null;
        }
        match repair_json(raw) {
            Some(v) => v,
            None => JsonValue::Null,
        }
    }

    /// What filling the cache does with `tool`, whose stored entry, if any,
    /// was kept under `stored_hash` and whose key is now `key`.
    pub fn step_for(tool: &JsonValue, stored_hash: Option<&str>, key: &str, prompts: &PromptsConfig) -> (r:
        CacheStep)
        ensures
            match r {
                CacheStep::Skip => !participates_spec(*tool) || tool.str_field("name"@) is None,
                CacheStep::Reuse(n) => participates_spec(*tool) && tool.str_field("name"@) == Some(n@)
                    && (stored_hash matches Some(h) && h@ == key@),
                CacheStep::Compress(n, p) => participates_spec(*tool) && tool.str_field("name"@) == Some(
                    n@,
                ) && !(stored_hash matches Some(h) && h@ == key@) && p@ == compress_prompt(*tool, *prompts),
            },
    {
        if !Self::participates(tool) {
            return CacheStep::Skip;
        }
        let name = match tool.get_str("name") {
            Some(n) => n,
            None => return CacheStep::Skip,
        };
        if Self::is_hit(stored_hash, key) {
            return CacheStep::Reuse(owned(name));
        }
        let none: &[UserSegment] = &[];
        let refs: &[(String, String)] = &[];
        let ctx = PromptContext {
            tool: Some(tool),
            compressed: None,
            user_query: none,
            env: None,
            artifact_refs: refs,
            args_hint: None,
            prompts,
        };
        let prompt = ctx.build(PromptKind::Compress);
        CacheStep::Compress(owned(name), prompt)
    }
}

} // verus!
