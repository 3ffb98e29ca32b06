//! Which capability a tool offered by a client has, judged by its name or
//! by the arguments it takes.
use vstd::prelude::*;

use super::kind::{CapabilityKind, ToolCapability};
use crate::bridge::tools::{all_tool_kinds, tool_kinds, tool_table, ToolEntry, ToolKind, ToolStatus};
use crate::json::{fields_contain, fields_lookup, JsonValue};
use crate::text::{eq_ignore_ascii_case, eq_ignore_case_seq, str_eq};

verus! {

/// A capability together with its produced and required refs, as values.
pub struct CapabilityView {
    pub kind: CapabilityKind,
    pub produces: Seq<Seq<char>>,
    pub requires: Seq<Seq<char>>,
}

pub open spec fn strs_view(s: &'static [&'static str]) -> Seq<Seq<char>> {
    s@.map_values(|x: &str| x@)
}

impl View for ToolCapability {
    type V = CapabilityView;

    open spec fn view(&self) -> CapabilityView {
        CapabilityView {
            kind: self.kind,
            produces: strs_view(self.produces),
            requires: strs_view(self.requires),
        }
    }
}

pub open spec fn cap_view(kind: CapabilityKind, produces: Seq<Seq<char>>, requires: Seq<Seq<char>>) -> CapabilityView {
    CapabilityView { kind, produces, requires }
}

/// A rule of the classifier: the argument names a tool must take and those
/// it must not take, and the capability that such a tool has.
pub struct CapabilityRule {
    pub includes: &'static [&'static str],
    pub excludes: &'static [&'static str],
    pub capability: ToolCapability,
}

/// The argument names declared by a tool description:
/// `input_schema.properties`, when that is an object.
pub open spec fn tool_properties(tool: JsonValue) -> Option<Seq<(String, JsonValue)>> {
    match tool.get_spec("input_schema"@) {
        Some(schema) => match schema.get_spec("properties"@) {
            Some(JsonValue::Object(f)) => Some(f@),
            _ => None,
        },
        None => None,
    }
}

/// The tool description declares an argument `key`.
pub open spec fn declares(props: Option<Seq<(String, JsonValue)>>, key: Seq<char>) -> bool {
    match props {
        Some(f) => fields_lookup(f, key) is Some,
        None => false,
    }
}

/// The capability that the argument names `props` imply, by the first
/// rule that they meet.
pub open spec fn rule_capability(props: Option<Seq<(String, JsonValue)>>) -> Option<CapabilityView> {
    let decl = |k: Seq<char>| declares(props, k);
    if decl("notebook_path"@) && decl("new_source"@) {
        Some(cap_view(CapabilityKind::Edit, seq![], seq![]))
    } else if decl("old_string"@) && decl("new_string"@) {
        Some(cap_view(CapabilityKind::Edit, seq!["file_content"@], seq!["file_content"@]))
    } else if decl("file_path"@) && decl("content"@) {
        Some(cap_view(CapabilityKind::Write, seq!["file_content"@], seq![]))
    } else if decl("file_path"@) && !decl("old_string"@) && !decl("content"@) {
        Some(cap_view(CapabilityKind::Read, seq!["file_content"@], seq![]))
    } else if decl("command"@) {
        Some(cap_view(CapabilityKind::Execute, seq!["command_output"@], seq![]))
    } else if decl("url"@) {
        Some(cap_view(CapabilityKind::Read, seq!["fetched_content"@], seq![]))
    } else if decl("query"@) {
        Some(cap_view(CapabilityKind::Search, seq!["search_results"@], seq![]))
    } else if decl("questions"@) {
        Some(cap_view(CapabilityKind::Interact, seq!["user_response"@], seq![]))
    } else {
        None
    }
}

/// The first tool kind, in table order, whose name is `name` up to ASCII
/// case.
pub open spec fn first_kind_named(ks: Seq<ToolKind>, name: Seq<char>) -> Option<ToolKind>
    decreases ks.len(),
{
    if ks.len() == 0 {
        None
    } else if eq_ignore_case_seq(ks[0].name_spec(), name) {
        Some(ks[0])
    } else {
        first_kind_named(ks.drop_first(), name)
    }
}

/// The refs that an overriding tool produces: its table entry's ref, when
/// that is one the classifier knows.
pub open spec fn override_produces(k: ToolKind) -> Seq<Seq<char>> {
    match tool_table(k).produces {
        Some((r, _)) => if r == "search_results"@ || r == "command_output"@ || r
            == "file_content"@ {
            seq![r]
        } else {
            seq![]
        },
        None => seq![],
    }
}

/// The capability of a tool description: none for a tool the bridge
/// leaves out; the table's for a tool it serves itself; otherwise the one
/// its arguments imply.
pub open spec fn classify_tool(tool: JsonValue) -> Option<CapabilityView> {
    let by_name = match tool.str_field("name"@) {
        Some(n) => first_kind_named(all_tool_kinds(), n),
        None => None,
    };
    match by_name {
        Some(k) if tool_table(k).status == ToolStatus::Excluded => None,
        Some(k) if tool_table(k).status == ToolStatus::Override => Some(
            cap_view(tool_table(k).capability.unwrap(), override_produces(k), seq![]),
        ),
        _ => rule_capability(tool_properties(tool)),
    }
}

impl CapabilityRule {
    /// The rule's argument names, as values.
    pub open spec fn includes_view(&self) -> Seq<Seq<char>> {
        strs_view(self.includes)
    }

    pub open spec fn excludes_view(&self) -> Seq<Seq<char>> {
        strs_view(self.excludes)
    }

    /// The declared argument names include every name the rule needs and
    /// none it forbids.
    pub fn matches(&self, props: Option<&Vec<(String, JsonValue)>>) -> (b: bool)
        ensures
            b == ((forall|i: int|
                0 <= i < self.includes@.len() ==> declares(opt_fields(props), self.includes@[i]@))
                && (forall|i: int|
                0 <= i < self.excludes@.len() ==> !declares(
                    opt_fields(props),
                    self.excludes@[i]@,
                ))),
    {
        let mut i: usize = 0;
        while i < self.includes.len()
            invariant
                i <= self.includes@.len(),
                forall|j: int| 0 <= j < i ==> declares(opt_fields(props), self.includes@[j]@),
            decreases self.includes@.len() - i,
        {
            if !has_key(props, self.includes[i]) {
                return false;
            }
            i = i + 1;
        }
        let mut i: usize = 0;
        while i < self.excludes.len()
            invariant
                i <= self.excludes@.len(),
                forall|j: int| 0 <= j < i ==> !declares(opt_fields(props), self.excludes@[j]@),
            decreases self.excludes@.len() - i,
        {
            if has_key(props, self.excludes[i]) {
                return false;
            }
            i = i + 1;
        }
        true
    }
}

pub open spec fn opt_fields(props: Option<&Vec<(String, JsonValue)>>) -> Option<
    Seq<(String, JsonValue)>,
> {
    match props {
        Some(f) => Some(f@),
        None => None,
    }
}

fn has_key(props: Option<&Vec<(String, JsonValue)>>, key: &str) -> (b: bool)
    ensures
        b == declares(opt_fields(props), key@),
{
    match props {
        Some(f) => fields_contain(f, key),
        None => false,
    }
}

/// The classifier's rules, in the order in which they are tried.
fn capability_rules() -> (r: &'static [CapabilityRule])
    ensures
        r@.len() == 8,
        r@[0].includes@.len() == 2 && r@[0].includes@[0]@ == "notebook_path"@
            && r@[0].includes@[1]@ == "new_source"@ && r@[0].excludes@.len() == 0
            && r@[0].capability@ == cap_view(CapabilityKind::Edit, seq![], seq![]),
        r@[1].includes@.len() == 2 && r@[1].includes@[0]@ == "old_string"@
            && r@[1].includes@[1]@ == "new_string"@ && r@[1].excludes@.len() == 0
            && r@[1].capability@ == cap_view(
            CapabilityKind::Edit,
            seq!["file_content"@],
            seq!["file_content"@],
        ),
        r@[2].includes@.len() == 2 && r@[2].includes@[0]@ == "file_path"@
            && r@[2].includes@[1]@ == "content"@ && r@[2].excludes@.len() == 0
            && r@[2].capability@ == cap_view(CapabilityKind::Write, seq!["file_content"@], seq![]),
        r@[3].includes@.len() == 1 && r@[3].includes@[0]@ == "file_path"@
            && r@[3].excludes@.len() == 2 && r@[3].excludes@[0]@ == "old_string"@
            && r@[3].excludes@[1]@ == "content"@
            && r@[3].capability@ == cap_view(CapabilityKind::Read, seq!["file_content"@], seq![]),
        r@[4].includes@.len() == 1 && r@[4].includes@[0]@ == "command"@ && r@[4].excludes@.len()
            == 0 && r@[4].capability@ == cap_view(
            CapabilityKind::Execute,
            seq!["command_output"@],
            seq![],
        ),
        r@[5].includes@.len() == 1 && r@[5].includes@[0]@ == "url"@ && r@[5].excludes@.len() == 0
            && r@[5].capability@ == cap_view(CapabilityKind::Read, seq!["fetched_content"@], seq![]),
        r@[6].includes@.len() == 1 && r@[6].includes@[0]@ == "query"@ && r@[6].excludes@.len()
            == 0 && r@[6].capability@ == cap_view(
            CapabilityKind::Search,
            seq!["search_results"@],
            seq![],
        ),
        r@[7].includes@.len() == 1 && r@[7].includes@[0]@ == "questions"@
            && r@[7].excludes@.len() == 0 && r@[7].capability@ == cap_view(
            CapabilityKind::Interact,
            seq!["user_response"@],
            seq![],
        ),
{
    let r: &'static [CapabilityRule] = &[
        CapabilityRule {
            includes: &["notebook_path", "new_source"],
            excludes: &[],
            capability: ToolCapability { kind: CapabilityKind::Edit, produces: &[], requires: &[] },
        },
        CapabilityRule {
            includes: &["old_string", "new_string"],
            excludes: &[],
            capability: ToolCapability {
                kind: CapabilityKind::Edit,
                produces: &["file_content"],
                requires: &["file_content"],
            },
        },
        CapabilityRule {
            includes: &["file_path", "content"],
            excludes: &[],
            capability: ToolCapability {
                kind: CapabilityKind::Write,
                produces: &["file_content"],
                requires: &[],
            },
        },
        CapabilityRule {
            includes: &["file_path"],
            excludes: &["old_string", "content"],
            capability: ToolCapability {
                kind: CapabilityKind::Read,
                produces: &["file_content"],
                requires: &[],
            },
        },
        CapabilityRule {
            includes: &["command"],
            excludes: &[],
            capability: ToolCapability {
                kind: CapabilityKind::Execute,
                produces: &["command_output"],
                requires: &[],
            },
        },
        CapabilityRule {
            includes: &["url"],
            excludes: &[],
            capability: ToolCapability {
                kind: CapabilityKind::Read,
                produces: &["fetched_content"],
                requires: &[],
            },
        },
        CapabilityRule {
            includes: &["query"],
            excludes: &[],
            capability: ToolCapability {
                kind: CapabilityKind::Search,
                produces: &["search_results"],
                requires: &[],
            },
        },
        CapabilityRule {
            includes: &["questions"],
            excludes: &[],
            capability: ToolCapability {
                kind: CapabilityKind::Interact,
                produces: &["user_response"],
                requires: &[],
            },
        },
    ];
    proof {
        assert(strs_view(r@[0].capability.produces) =~= seq![]);
        assert(strs_view(r@[0].capability.requires) =~= seq![]);
        assert(strs_view(r@[1].capability.produces) =~= seq!["file_content"@]);
        assert(strs_view(r@[1].capability.requires) =~= seq!["file_content"@]);
        assert(strs_view(r@[2].capability.produces) =~= seq!["file_content"@]);
        assert(strs_view(r@[2].capability.requires) =~= seq![]);
        assert(strs_view(r@[3].capability.produces) =~= seq!["file_content"@]);
        assert(strs_view(r@[3].capability.requires) =~= seq![]);
        assert(strs_view(r@[4].capability.produces) =~= seq!["command_output"@]);
        assert(strs_view(r@[4].capability.requires) =~= seq![]);
        assert(strs_view(r@[5].capability.produces) =~= seq!["fetched_content"@]);
        assert(strs_view(r@[5].capability.requires) =~= seq![]);
        assert(strs_view(r@[6].capability.produces) =~= seq!["search_results"@]);
        assert(strs_view(r@[6].capability.requires) =~= seq![]);
        assert(strs_view(r@[7].capability.produces) =~= seq!["user_response"@]);
        assert(strs_view(r@[7].capability.requires) =~= seq![]);
    }
    r
}


pub proof fn lemma_first_kind_named_skip(ks: Seq<ToolKind>, name: Seq<char>, i: int)
    requires
        0 <= i <= ks.len(),
        forall|j: int| 0 <= j < i ==> !eq_ignore_case_seq(#[trigger] ks[j].name_spec(), name),
    ensures
        first_kind_named(ks, name) == first_kind_named(ks.skip(i), name),
    decreases i,
{
    if i > 0 {
        assert forall|j: int| 0 <= j < i - 1 implies !eq_ignore_case_seq(
            #[trigger] ks.drop_first()[j].name_spec(),
            name,
        ) by {
            assert(ks.drop_first()[j] == ks[j + 1]);
        }
        lemma_first_kind_named_skip(ks.drop_first(), name, i - 1);
        assert(ks.drop_first().skip(i - 1) =~= ks.skip(i));
    } else {
        assert(ks.skip(0) =~= ks);
    }
}

/// The first tool kind, in table order, whose name is `name` up to ASCII
/// case.
fn kind_named(name: &str) -> (r: Option<ToolKind>)
    ensures
        r == first_kind_named(all_tool_kinds(), name@),
{
    let kinds = tool_kinds();
    let mut i: usize = 0;
    while i < kinds.len()
        invariant
            kinds@ == all_tool_kinds(),
            i <= kinds@.len(),
            forall|j: int| 0 <= j < i ==> !eq_ignore_case_seq(#[trigger] kinds@[j].name_spec(), name@),
        decreases kinds@.len() - i,
    {
        if eq_ignore_ascii_case(kinds[i].as_str(), name) {
            proof {
                lemma_first_kind_named_skip(kinds@, name@, i as int);
            }
            return Some(kinds[i]);
        }
        i = i + 1;
    }
    proof {
        lemma_first_kind_named_skip(kinds@, name@, i as int);
    }
    None
}

/// `input_schema.properties` of a tool description, when that is an object.
fn properties_of(tool: &JsonValue) -> (r: Option<&Vec<(String, JsonValue)>>)
    ensures
        opt_fields(r) == tool_properties(*tool),
{
    match tool.get("input_schema") {
        Some(schema) => match schema.get("properties") {
            Some(p) => p.as_object(),
            None => None,
        },
        None => None,
    }
}

impl ToolCapability {
    /// The capability of a tool description (`TryFrom<&Value>`): none for a
    /// tool the bridge leaves out; the table's for a tool the bridge serves
    /// itself; otherwise that of the first rule its arguments meet.
    pub fn try_from(tool: &JsonValue) -> (r: Result<ToolCapability, ()>)
        ensures
            match r {
                Ok(c) => classify_tool(*tool) == Some(c@),
                Err(()) => classify_tool(*tool) is None,
            },
    {
        match tool.get_str("name") {
            Some(name) => match kind_named(name) {
                Some(k) => {
                    let entry = ToolEntry::of_kind(k);
                    if entry.status == ToolStatus::Excluded {
                        return Err(());
                    }
                    if entry.status == ToolStatus::Override {
                        let produces: &'static [&'static str] = match entry.produces {
                            Some((ref_name, _)) => {
                                if str_eq(ref_name, "search_results") {
                                    &["search_results"]
                                } else if str_eq(ref_name, "command_output") {
                                    &["command_output"]
                                } else if str_eq(ref_name, "file_content") {
                                    &["file_content"]
                                } else {
                                    &[]
                                }
                            },
                            None => &[],
                        };
                        proof {
                            assert(strs_view(produces) =~= override_produces(k));
                            assert(strs_view(&[]) =~= Seq::<Seq<char>>::empty());
                        }
                        return match entry.capability {
                            Some(kind) => Ok(ToolCapability { kind, produces, requires: &[] }),
                            None => Err(()),
                        };
                    }
                },
                None => {},
            },
            None => {},
        }
        let props = properties_of(tool);
        let rules = capability_rules();
        let mut i: usize = 0;
        while i < rules.len()
            invariant
                i <= rules@.len(),
                forall|j: int| 0 <= j < i ==> !rule_meets(rules@[j], opt_fields(props)),
            decreases rules@.len() - i,
        {
            if rules[i].matches(props) {
                proof {
                    assert(rule_meets(rules@[i as int], opt_fields(props)));
                }
                return Ok(rules[i].capability);
            }
            i = i + 1;
        }
        Err(())
    }
}

/// The declared argument names meet rule `r`.
spec fn rule_meets(r: CapabilityRule, props: Option<Seq<(String, JsonValue)>>) -> bool {
    (forall|i: int| 0 <= i < r.includes@.len() ==> declares(props, r.includes@[i]@)) && (forall|
        i: int,
    | 0 <= i < r.excludes@.len() ==> !declares(props, r.excludes@[i]@))
}

} // verus!
