//! The prompt templates, and the placeholders that each must hold.
use vstd::prelude::*;

use crate::text::{contains, contains_seq, push_str};

verus! {

/// The prompt templates of the configuration.
pub struct PromptsConfig {
    pub compress: String,
    pub args: String,
    pub tool_result: String,
    pub intent_classify: String,
    pub hash_select: String,
    pub web_search: String,
}

/// Each template, by name, with the placeholders it must hold, in the
/// order in which they are checked.
pub open spec fn template_checks(p: PromptsConfig) -> Seq<(Seq<char>, Seq<char>, Seq<Seq<char>>)> {
    seq![
        ("compress"@, p.compress@, seq!["{tool_name}"@, "{combined}"@]),
        (
            "args"@,
            p.args@,
            seq![
                "{user_query}"@,
                "{env_context}"@,
                "{file_artifacts}"@,
                "{resolved_args}"@,
                "{rules}"@,
                "{schema}"@,
            ],
        ),
        (
            "tool_result"@,
            p.tool_result@,
            seq!["{user_query}"@, "{tool_name}"@, "{tool_input}"@, "{tool_result}"@],
        ),
        ("intent_classify"@, p.intent_classify@, seq!["{user_query}"@]),
        ("hash_select"@, p.hash_select@, seq!["{user_query}"@, "{candidates}"@]),
        ("web_search"@, p.web_search@, seq!["{query}"@]),
    ]
}

/// The first placeholder, among `phs`, that `template` lacks.
pub open spec fn first_missing(template: Seq<char>, phs: Seq<Seq<char>>) -> Option<Seq<char>>
    decreases phs.len(),
{
    if phs.len() == 0 {
        None
    } else if !contains_seq(template, phs[0]) {
        Some(phs[0])
    } else {
        first_missing(template, phs.drop_first())
    }
}

/// The first template, in check order, that lacks a placeholder, with the
/// first placeholder it lacks.
pub open spec fn first_fault(checks: Seq<(Seq<char>, Seq<char>, Seq<Seq<char>>)>) -> Option<
    (Seq<char>, Seq<char>),
>
    decreases checks.len(),
{
    if checks.len() == 0 {
        None
    } else {
        match first_missing(checks[0].1, checks[0].2) {
            Some(ph) => Some((checks[0].0, ph)),
            None => first_fault(checks.drop_first()),
        }
    }
}

/// Every template holds every placeholder that it must hold.
pub open spec fn all_placeholders_present(p: PromptsConfig) -> bool {
    let cs = template_checks(p);
    forall|i: int, j: int|
        0 <= i < cs.len() && 0 <= j < cs[i].2.len() ==> contains_seq(cs[i].1, #[trigger] cs[i].2[j])
}

proof fn lemma_first_missing(template: Seq<char>, phs: Seq<Seq<char>>)
    ensures
        first_missing(template, phs) is None <==> forall|j: int|
            0 <= j < phs.len() ==> contains_seq(template, #[trigger] phs[j]),
        first_missing(template, phs) matches Some(ph) ==> phs.contains(ph) && !contains_seq(
            template,
            ph,
        ),
    decreases phs.len(),
{
    if phs.len() > 0 {
        lemma_first_missing(template, phs.drop_first());
        if contains_seq(template, phs[0]) {
            assert forall|j: int| 0 <= j < phs.len() && (forall|k: int|
                0 <= k < phs.drop_first().len() ==> contains_seq(template, #[trigger] phs.drop_first()[k]))
                implies contains_seq(template, #[trigger] phs[j]) by {
                if j > 0 {
                    assert(phs[j] == phs.drop_first()[j - 1]);
                }
            }
            if first_missing(template, phs) is None {
                assert forall|k: int| 0 <= k < phs.drop_first().len() implies contains_seq(
                    template,
                    #[trigger] phs.drop_first()[k],
                ) by {
                    assert(phs.drop_first()[k] == phs[k + 1]);
                }
            }
            match first_missing(template, phs) {
                Some(ph) => {
                    let k = choose|k: int| 0 <= k < phs.drop_first().len() && phs.drop_first()[k] == ph;
                    assert(phs[k + 1] == ph);
                },
                None => {},
            }
        } else {
            assert(phs.contains(phs[0]));
        }
    }
}

proof fn lemma_first_fault(checks: Seq<(Seq<char>, Seq<char>, Seq<Seq<char>>)>)
    ensures
        first_fault(checks) is None <==> forall|i: int, j: int|
            0 <= i < checks.len() && 0 <= j < checks[i].2.len() ==> contains_seq(
                checks[i].1,
                #[trigger] checks[i].2[j],
            ),
        first_fault(checks) matches Some((name, ph)) ==> exists|i: int|
            0 <= i < checks.len() && (#[trigger] checks[i]).0 == name && checks[i].2.contains(ph)
                && !contains_seq(checks[i].1, ph),
    decreases checks.len(),
{
    if checks.len() > 0 {
        let rest = checks.drop_first();
        lemma_first_fault(rest);
        lemma_first_missing(checks[0].1, checks[0].2);
        match first_missing(checks[0].1, checks[0].2) {
            Some(ph) => {
                let j = choose|j: int| 0 <= j < checks[0].2.len() && checks[0].2[j] == ph;
                assert(!contains_seq(checks[0].1, checks[0].2[j]));
            },
            None => {
                assert forall|i: int, j: int|
                    0 <= i < checks.len() && 0 <= j < checks[i].2.len() && first_fault(rest) is None
                    implies contains_seq(checks[i].1, #[trigger] checks[i].2[j]) by {
                    if i > 0 {
                        assert(checks[i] == rest[i - 1]);
                        assert(contains_seq(rest[i - 1].1, rest[i - 1].2[j]));
                    }
                }
                if first_fault(checks) is None {
                    assert forall|i: int, j: int|
                        0 <= i < rest.len() && 0 <= j < rest[i].2.len() implies contains_seq(
                        rest[i].1,
                        #[trigger] rest[i].2[j],
                    ) by {
                        assert(rest[i] == checks[i + 1]);
                        assert(contains_seq(checks[i + 1].1, checks[i + 1].2[j]));
                    }
                }
                match first_fault(checks) {
                    Some((name, ph)) => {
                        let i = choose|i: int|
                            0 <= i < rest.len() && (#[trigger] rest[i]).0 == name && rest[i].2.contains(
                                ph,
                            ) && !contains_seq(rest[i].1, ph);
                        assert(checks[i + 1] == rest[i]);
                    },
                    None => {},
                }
            },
        }
    }
}

/// A configuration's templates are accepted exactly when each holds every
/// placeholder it must hold; when they are refused, the template named
/// lacks the placeholder named, which is one that it must hold.
pub proof fn lemma_validate_accepts_complete_templates(p: PromptsConfig)
    ensures
        first_fault(template_checks(p)) is None <==> all_placeholders_present(p),
        first_fault(template_checks(p)) matches Some((name, ph)) ==> exists|i: int|
            0 <= i < template_checks(p).len() && (#[trigger] template_checks(p)[i]).0 == name
                && template_checks(p)[i].2.contains(ph) && !contains_seq(template_checks(p)[i].1, ph),
{
    lemma_first_fault(template_checks(p));
}

/// `prompts.{name} is missing required placeholder {placeholder}`
pub open spec fn missing_msg(name: Seq<char>, placeholder: Seq<char>) -> Seq<char> {
    "prompts."@ + name + " is missing required placeholder "@ + placeholder
}

/// The first placeholder, among `phs`, that `template` lacks.
fn check_template<'a>(template: &str, phs: &[&'a str]) -> (r: Option<&'a str>)
    ensures
        match r {
            Some(p) => first_missing(template@, phs@.map_values(|s: &str| s@)) == Some(p@),
            None => first_missing(template@, phs@.map_values(|s: &str| s@)) is None,
        },
{
    let ghost pv = phs@.map_values(|s: &str| s@);
    let mut i: usize = 0;
    proof {
        assert(pv.skip(0) =~= pv);
    }
    while i < phs.len()
        invariant
            i <= phs@.len(),
            pv == phs@.map_values(|s: &str| s@),
            first_missing(template@, pv) == first_missing(template@, pv.skip(i as int)),
        decreases phs@.len() - i,
    {
        proof {
            assert(pv.skip(i as int).drop_first() =~= pv.skip(i + 1));
            assert(pv.skip(i as int)[0] == phs@[i as int]@);
        }
        if !contains(template, phs[i]) {
            return Some(phs[i]);
        }
        i = i + 1;
    }
    None
}

impl PromptsConfig {
    /// Refuses a configuration in which a template lacks one of its
    /// placeholders; the message names the first such template and
    /// placeholder.
    pub fn validate(&self) -> (r: Result<(), String>)
        ensures
            match first_fault(template_checks(*self)) {
                Some((name, ph)) => r matches Err(m) && m@ == missing_msg(name, ph),
                None => r is Ok,
            },
    {
        let checks: [(&str, &str, &[&str]); 6] = [
            ("compress", self.compress.as_str(), &["{tool_name}", "{combined}"]),
            (
                "args",
                self.args.as_str(),
                &[
                    "{user_query}",
                    "{env_context}",
                    "{file_artifacts}",
                    "{resolved_args}",
                    "{rules}",
                    "{schema}",
                ],
            ),
            (
                "tool_result",
                self.tool_result.as_str(),
                &["{user_query}", "{tool_name}", "{tool_input}", "{tool_result}"],
            ),
            ("intent_classify", self.intent_classify.as_str(), &["{user_query}"]),
            ("hash_select", self.hash_select.as_str(), &["{user_query}", "{candidates}"]),
            ("web_search", self.web_search.as_str(), &["{query}"]),
        ];
        let ghost tc = template_checks(*self);
        let mut i: usize = 0;
        proof {
            assert(tc.skip(0) =~= tc);
        }
        while i < 6
            invariant
                i <= 6,
                tc == template_checks(*self),
                tc.len() == 6,
                forall|k: int| 0 <= k < 6 ==> (#[trigger] checks@[k]).0@ == tc[k].0 && checks@[k].1@
                    == tc[k].1 && checks@[k].2@.map_values(|s: &str| s@) == tc[k].2,
                first_fault(tc) == first_fault(tc.skip(i as int)),
            decreases 6 - i,
        {
            proof {
                assert(tc.skip(i as int).drop_first() =~= tc.skip(i + 1));
                assert(tc.skip(i as int)[0] == tc[i as int]);
            }
            let (name, template, phs) = checks[i];
            match check_template(template, phs) {
                Some(ph) => {
                    let mut m = String::new();
                    push_str(&mut m, "prompts.");
                    push_str(&mut m, name);
                    push_str(&mut m, " is missing required placeholder ");
                    push_str(&mut m, ph);
                    return Err(m);
                },
                None => {},
            }
            i = i + 1;
        }
        Ok(())
    }
}

} // verus!
