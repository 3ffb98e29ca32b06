//! Whether an edit's search string can be found in the file it edits.
use vstd::prelude::*;

use crate::json::JsonValue;
use crate::text::{
    char_index, chars_of, contains, contains_seq, index_of_char, join, join_with,
    lemma_char_index, lines, lines_of, owned, str_eq, string_of_range,
};
use crate::validation::Validate;

verus! {

/// What an edit needs checked before it runs.
pub enum TransformCheck {
    Required { old: String, content: String },
    MissingOld,
    NotApplicable,
}

/// A `TransformCheck`, as values.
pub enum TransformCheckView {
    Required(Seq<char>, Seq<char>),
    MissingOld,
    NotApplicable,
}

impl View for TransformCheck {
    type V = TransformCheckView;

    open spec fn view(&self) -> TransformCheckView {
        match self {
            TransformCheck::Required { old, content } => TransformCheckView::Required(old@, content@),
            TransformCheck::MissingOld => TransformCheckView::MissingOld,
            TransformCheck::NotApplicable => TransformCheckView::NotApplicable,
        }
    }
}

/// `c` is an ASCII digit.
pub open spec fn is_digit(c: char) -> bool {
    '0' <= c && c <= '9'
}

/// A line of a numbered listing without its number: what follows the first
/// tab, when only digits come before it.
pub open spec fn unnumbered(line: Seq<char>) -> Seq<char> {
    let k = char_index(line, '\t');
    if k < line.len() && forall|i: int| 0 <= i < k ==> is_digit(#[trigger] line[i]) {
        line.skip(k + 1)
    } else {
        line
    }
}

/// A numbered listing of a file, as the file's own text.
pub open spec fn strip_spec(s: Seq<char>) -> Seq<char> {
    join_with(unnumbered_all(lines_of(s)), "\n"@)
}

/// Each of `ls` without its number.
pub open spec fn unnumbered_all(ls: Seq<Seq<char>>) -> Seq<Seq<char>> {
    ls.map_values(|l: Seq<char>| unnumbered(l))
}

/// Some of `refs` is `file_content`.
pub open spec fn names_file_content(refs: Seq<String>) -> bool {
    exists|i: int| 0 <= i < refs.len() && refs[i]@ == "file_content"@
}

/// What an edit with arguments `input`, needing the artifacts `refs`, must
/// have checked: nothing unless it needs the file's content and names a
/// search or replacement string; the search string against the file's text
/// when it names one; otherwise a missing search string.
pub open spec fn transform_check_spec(
    input: JsonValue,
    refs: Seq<String>,
    file_content: Option<Seq<char>>,
) -> TransformCheckView {
    if !names_file_content(refs) {
        TransformCheckView::NotApplicable
    } else {
        match input.str_field("old_string"@) {
            None => if input.get_spec("new_string"@) is None {
                TransformCheckView::NotApplicable
            } else {
                TransformCheckView::MissingOld
            },
            Some(old) => TransformCheckView::Required(old, strip_spec(file_content->0)),
        }
    }
}

fn unnumbered_line(line: &String) -> (r: String)
    ensures
        r@ == unnumbered(line@),
{
    let v = chars_of(line.as_str());
    let k = index_of_char(&v, 0, v.len(), '\t');
    proof {
        lemma_char_index(v@, '\t', k as int);
    }
    if k == v.len() {
        return owned(line.as_str());
    }
    let mut i: usize = 0;
    while i < k
        invariant
            k < v@.len(),
            i <= k,
            v@ == line@,
            forall|j: int| 0 <= j < i ==> is_digit(#[trigger] v@[j]),
        decreases k - i,
    {
        if !('0' <= v[i] && v[i] <= '9') {
            return owned(line.as_str());
        }
        i = i + 1;
    }
    proof {
        assert(v@.subrange(k + 1, v@.len() as int) =~= line@.skip(k + 1));
    }
    string_of_range(&v, k + 1, v.len())
}

impl TransformCheck {
    /// A numbered listing of a file, as the file's own text: each line loses
    /// a leading run of digits and the tab after it.
    pub fn strip(s: &str) -> (r: String)
        ensures
            r@ == strip_spec(s@),
    {
        let ls = lines(s);
        let ghost lv = ls@.map_values(|x: String| x@);
        let mut out: Vec<String> = Vec::new();
        let mut i: usize = 0;
        while i < ls.len()
            invariant
                i <= ls@.len(),
                lv == ls@.map_values(|x: String| x@),
                lv == lines_of(s@),
                out@.map_values(|x: String| x@) == unnumbered_all(lv.take(i as int)),
            decreases ls@.len() - i,
        {
            let u = unnumbered_line(&ls[i]);
            let ghost before = out@;
            out.push(u);
            proof {
                assert(lv[i as int] == ls@[i as int]@);
                assert(out@ == before.push(u));
                assert(lv.take(i + 1) =~= lv.take(i as int).push(lv[i as int]));
                let ov = out@.map_values(|x: String| x@);
                let want = unnumbered_all(lv.take(i + 1));
                assert(ov.len() == want.len());
                assert forall|k: int| 0 <= k < ov.len() implies ov[k] == want[k] by {
                    if k < i {
                        assert(ov[k] == before.map_values(|x: String| x@)[k]);
                    }
                }
                assert(ov =~= want);
            }
            i = i + 1;
        }
        proof {
            assert(lv.take(ls@.len() as int) =~= lv);
        }
        let nl = "\n";
        proof {
            reveal_strlit("\n");
        }
        join(&out, nl)
    }

    /// What an edit with arguments `input`, needing the artifacts
    /// `artifact_refs`, must have checked; `file_content` is the text of
    /// the file it edits.
    pub fn from_args(input: &JsonValue, artifact_refs: &[String], file_content: Option<&str>) -> (r:
        Self)
        requires
            names_file_content(artifact_refs@) && input.str_field("old_string"@) is Some
                ==> file_content is Some,
        ensures
            r@ == transform_check_spec(
                *input,
                artifact_refs@,
                crate::planner::builder::task::opt_str(file_content),
            ),
    {
        let mut i: usize = 0;
        let mut found = false;
        while i < artifact_refs.len()
            invariant
                i <= artifact_refs@.len(),
                found == exists|j: int| 0 <= j < i && artifact_refs@[j]@ == "file_content"@,
            decreases artifact_refs@.len() - i,
        {
            if str_eq(artifact_refs[i].as_str(), "file_content") {
                found = true;
            }
            i = i + 1;
        }
        if !found {
            return TransformCheck::NotApplicable;
        }
        let old = input.get_str("old_string");
        let new_exists = match input.get("new_string") {
            Some(_) => true,
            None => false,
        };
        match old {
            Some(o) => TransformCheck::Required {
                old: owned(o),
                content: TransformCheck::strip(file_content.unwrap()),
            },
            None => {
                if new_exists {
                    TransformCheck::MissingOld
                } else {
                    TransformCheck::NotApplicable
                }
            },
        }
    }
}

/// Why an edit cannot apply.
#[derive(Clone, Copy, Debug, PartialEq, Eq, Structural)]
pub enum ContentError {
    OldStringNotFound,
}

impl ContentError {
    /// The message that describes the error.
    pub open spec fn message(self) -> Seq<char> {
        "old_string not found in file content"@
    }

    /// The message that describes the error.
    pub fn to_string(&self) -> (s: String)
        ensures
            s@ == self.message(),
    {
        owned("old_string not found in file content")
    }
}

/// The text that an edit's search string must be found in.
pub struct TransformContext<'a> {
    pub file_content: &'a str,
}

/// An edit, by its search string.
pub struct Transform<'a> {
    pub old_string: &'a str,
}

impl<'ctx, 'a> Validate<'ctx> for Transform<'a> {
    type Context = TransformContext<'ctx>;

    type Error = ContentError;

    open spec fn validate_requires(&self, ctx: &TransformContext<'ctx>) -> bool {
        true
    }

    /// The edit applies when the file's text contains its search string.
    fn validate(&self, ctx: &'ctx TransformContext<'ctx>) -> (r: Result<(), ContentError>)
        ensures
            r is Ok <==> contains_seq(ctx.file_content@, self.old_string@),
    {
        if contains(ctx.file_content, self.old_string) {
            Ok(())
        } else {
            Err(ContentError::OldStringNotFound)
        }
    }
}

} // verus!
