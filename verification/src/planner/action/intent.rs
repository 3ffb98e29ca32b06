//! What a language model said a request means: an action, the kind of
//! task, a path and how a write treats an existing file.
use vstd::prelude::*;

use super::class::{action_named, disposition_named, ActionClass, WriteDisposition};
use crate::json::{parse_json, parsed_json, JsonValue};
use crate::planner::utils::{sanitize, sanitize_spec};
use crate::text::{has_prefix, strip_prefix_or, strip_suffix_or, trim, trim_seq, without_prefix, without_suffix};
use vstd::string::StringSliceAdditionalSpecFns;
use vstd::utf8::encode_utf8;

verus! {

/// Whether a request asks for knowledge, a procedure or a transformation.
#[derive(Clone, Copy, Debug, PartialEq, Eq, Structural)]
pub enum TaskKind {
    Knowledge,
    Procedural,
    Transform,
}

/// Where the path of a request came from.
#[derive(Debug)]
pub enum PathSource {
    Explicit(String),
    LastDir(String),
    Cwd,
}

/// A path source, as values.
pub enum PathView {
    Explicit(Seq<char>),
    LastDir(Seq<char>),
    Cwd,
}

impl View for PathSource {
    type V = PathView;

    open spec fn view(&self) -> PathView {
        match self {
            PathSource::Explicit(s) => PathView::Explicit(s@),
            PathSource::LastDir(s) => PathView::LastDir(s@),
            PathSource::Cwd => PathView::Cwd,
        }
    }
}

/// The path that a source stands for.
pub open spec fn path_text(p: PathView) -> Seq<char> {
    match p {
        PathView::Explicit(s) => s,
        PathView::LastDir(s) => s,
        PathView::Cwd => "."@,
    }
}

impl PathSource {
    /// The path that the source stands for; the working directory is `.`.
    pub fn as_str(&self) -> (r: &str)
        ensures
            r@ == path_text(self@),
    {
        match self {
            PathSource::Explicit(s) => s.as_str(),
            PathSource::LastDir(s) => s.as_str(),
            PathSource::Cwd => {
                let d = ".";
                proof {
                    reveal_strlit(".");
                }
                d
            },
        }
    }

    /// A copy of the source.
    pub fn duplicate(&self) -> (r: PathSource)
        ensures
            r@ == self@,
    {
        match self {
            PathSource::Explicit(s) => PathSource::Explicit(crate::text::owned(s.as_str())),
            PathSource::LastDir(s) => PathSource::LastDir(crate::text::owned(s.as_str())),
            PathSource::Cwd => PathSource::Cwd,
        }
    }
}

/// What a request means, as a language model classified it.
#[derive(Debug)]
pub struct IntentPlan {
    pub action: ActionClass,
    pub task_kind: TaskKind,
    pub path: Option<PathSource>,
    pub write_disposition: Option<WriteDisposition>,
}

/// An intent plan, as values.
pub struct PlanView {
    pub action: ActionClass,
    pub task_kind: TaskKind,
    pub path: Option<PathView>,
    pub write_disposition: Option<WriteDisposition>,
}

pub open spec fn opt_path_view(p: Option<PathSource>) -> Option<PathView> {
    match p {
        Some(s) => Some(s@),
        None => None,
    }
}

impl View for IntentPlan {
    type V = PlanView;

    open spec fn view(&self) -> PlanView {
        PlanView {
            action: self.action,
            task_kind: self.task_kind,
            path: opt_path_view(self.path),
            write_disposition: self.write_disposition,
        }
    }
}

/// A model's answer without surrounding whitespace and without the code
/// fence around it.
pub open spec fn fences_stripped(raw: Seq<char>) -> Seq<char> {
    let t = trim_seq(raw);
    let t = strip_prefix_or(t, "```json"@);
    let t = strip_prefix_or(t, "```"@);
    let t = strip_suffix_or(t, "```"@);
    trim_seq(t)
}

/// The task kind that a plan names: `Knowledge` and `Transform` by name,
/// anything else procedural.
pub open spec fn task_kind_named(s: Option<Seq<char>>) -> TaskKind {
    if s == Some("Knowledge"@) {
        TaskKind::Knowledge
    } else if s == Some("Transform"@) {
        TaskKind::Transform
    } else {
        TaskKind::Procedural
    }
}

/// The plan that a JSON answer describes, if it names a known action.
pub open spec fn plan_of_json(v: JsonValue) -> Option<PlanView> {
    match v.str_field("action"@) {
        None => None,
        Some(a) => match action_named(a) {
            None => None,
            Some(action) => Some(
                PlanView {
                    action,
                    task_kind: task_kind_named(v.str_field("task_kind"@)),
                    path: match v.str_field("relative_path"@) {
                        Some(p) => Some(PathView::Explicit(sanitize_spec(encode_utf8(p)))),
                        None => None,
                    },
                    write_disposition: match action {
                        ActionClass::EditFile => Some(WriteDisposition::ModifyExisting),
                        ActionClass::WriteFile => Some(
                            match v.str_field("write_disposition"@) {
                                Some(d) => match disposition_named(d) {
                                    Some(w) => w,
                                    None => WriteDisposition::EnsureExists,
                                },
                                None => WriteDisposition::EnsureExists,
                            },
                        ),
                        _ => None,
                    },
                },
            ),
        },
    }
}

impl IntentPlan {
    /// A model's answer without surrounding whitespace and code fence: the
    /// text that is read as JSON.
    pub fn strip_fences(raw: &str) -> (r: String)
        ensures
            r@ == fences_stripped(raw@),
    {
        let t = trim(raw);
        let t = without_prefix(t.as_str(), "```json");
        let t = without_prefix(t.as_str(), "```");
        let t = without_suffix(t.as_str(), "```");
        trim(t.as_str())
    }

    /// The plan that the JSON answer `v` describes; `None` unless it names
    /// a known action.
    pub fn from_json(v: &JsonValue) -> (r: Option<IntentPlan>)
        ensures
            match (r, plan_of_json(*v)) {
                (Some(p), Some(q)) => p@ == q,
                (None, None) => true,
                _ => false,
            },
    {
        let action_str = match v.get_str("action") {
            Some(a) => a,
            None => return None,
        };
        let action = match ActionClass::from_str(action_str) {
            Some(a) => a,
            None => return None,
        };
        let task_kind = match v.get_str("task_kind") {
            Some(k) => {
                if crate::text::str_eq(k, "Knowledge") {
                    TaskKind::Knowledge
                } else if crate::text::str_eq(k, "Transform") {
                    TaskKind::Transform
                } else {
                    TaskKind::Procedural
                }
            },
            None => TaskKind::Procedural,
        };
        let path = match v.get_str("relative_path") {
            Some(p) => Some(PathSource::Explicit(sanitize(p))),
            None => None,
        };
        let write_disposition = match action {
            ActionClass::EditFile => Some(WriteDisposition::ModifyExisting),
            ActionClass::WriteFile => Some(
                match v.get_str("write_disposition") {
                    Some(d) => match WriteDisposition::from_str(d) {
                        Some(w) => w,
                        None => WriteDisposition::EnsureExists,
                    },
                    None => WriteDisposition::EnsureExists,
                },
            ),
            _ => None,
        };
        Some(IntentPlan { action, task_kind, path, write_disposition })
    }

    /// The plan in a model's answer: the answer without its code fence,
    /// read as JSON; `None` when that is not JSON or names no known action.
    pub fn parse(raw: &str) -> (r: Option<IntentPlan>)
        ensures
            match parsed_json(fences_stripped(raw@)) {
                None => r is None,
                Some(d) => exists|v: JsonValue|
                    v.deep() == d && match (r, plan_of_json(v)) {
                        (Some(p), Some(q)) => p@ == q,
                        (None, None) => true,
                        _ => false,
                    },
            },
    {
        let text = Self::strip_fences(raw);
        match parse_json(text.as_str()) {
            Some(v) => Self::from_json(&v),
            None => None,
        }
    }

    /// A copy of the plan.
    pub fn duplicate(&self) -> (r: IntentPlan)
        ensures
            r@ == self@,
    {
        IntentPlan {
            action: self.action,
            task_kind: self.task_kind,
            path: match &self.path {
                Some(p) => Some(p.duplicate()),
                None => None,
            },
            write_disposition: self.write_disposition,
        }
    }
}

} // verus!
