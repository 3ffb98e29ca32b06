//! Whether what a model made of a request names a usable subject.
use vstd::prelude::*;

use crate::planner::action::class::ActionClass;
use crate::planner::action::intent::{path_text, IntentPlan, PlanView};
use crate::text::{owned, push_str, str_eq, trim, trim_seq};
use crate::validation::utils::{check, check_spec, FsSnapshot};

verus! {

/// An intent whose subject was checked, with the subject's absolute path.
pub struct ValidatedIntent {
    pub original: IntentPlan,
    pub canonical_subject: Option<String>,
}

/// Why an intent is refused.
#[derive(Clone, Copy, Debug, PartialEq, Eq, Structural)]
pub enum IntentValidationError {
    MissingSubject,
    EmptySubject,
    InvalidPath,
}

impl IntentValidationError {
    /// The message that describes the error.
    pub open spec fn message(self) -> Seq<char> {
        match self {
            IntentValidationError::MissingSubject => "subject required but not provided"@,
            IntentValidationError::EmptySubject => "subject is empty or null"@,
            IntentValidationError::InvalidPath => "path incompatible with action"@,
        }
    }

    /// The message that describes the error.
    pub fn to_string(&self) -> (s: String)
        ensures
            s@ == self.message(),
    {
        match self {
            IntentValidationError::MissingSubject => owned("subject required but not provided"),
            IntentValidationError::EmptySubject => owned("subject is empty or null"),
            IntentValidationError::InvalidPath => owned("path incompatible with action"),
        }
    }
}

/// The verdict on an intent: the canonical subject it gets, or why it is
/// refused. Commands, searches and debugging keep their subject as it is;
/// other actions need a subject that is neither empty nor `null`, whose
/// resolved path is not a directory for a read or an edit, nor a file for
/// a listing.
pub open spec fn intent_verdict(p: PlanView, cwd: Seq<char>, fs: Map<Seq<char>, bool>) -> Result<
    Option<Seq<char>>,
    IntentValidationError,
> {
    match p.action {
        ActionClass::ExecuteCommand | ActionClass::WebSearch | ActionClass::DebugCode => Ok(
            match p.path {
                Some(s) => Some(path_text(s)),
                None => None,
            },
        ),
        _ => match p.path {
            None => Err(IntentValidationError::MissingSubject),
            Some(s) => {
                let t = trim_seq(path_text(s));
                if t.len() == 0 || t == "null"@ {
                    Err(IntentValidationError::EmptySubject)
                } else {
                    let (exists, is_dir, abs) = check_spec(t, cwd, fs);
                    if (p.action == ActionClass::ReadFile || p.action == ActionClass::EditFile)
                        && exists && is_dir {
                        Err(IntentValidationError::InvalidPath)
                    } else if p.action == ActionClass::ListDirectory && exists && !is_dir {
                        Err(IntentValidationError::InvalidPath)
                    } else {
                        Ok(Some(abs))
                    }
                }
            },
        },
    }
}

/// Checks the subject of `intent`, resolved against `cwd` and looked up in
/// `fs`.
pub fn validate_intent(intent: &IntentPlan, cwd: &str, fs: &FsSnapshot) -> (r: Result<
    ValidatedIntent,
    IntentValidationError,
>)
    requires
        fs.wf(),
    ensures
        match (r, intent_verdict(intent@, cwd@, fs@)) {
            (Ok(v), Ok(c)) => v.original@ == intent@ && crate::artifact::types::opt_string_view(
                v.canonical_subject,
            ) == c,
            (Err(e), Err(e2)) => e == e2,
            _ => false,
        },
{
    match intent.action {
        ActionClass::ExecuteCommand | ActionClass::WebSearch | ActionClass::DebugCode => {
            let canonical_subject = match &intent.path {
                Some(p) => Some(owned(p.as_str())),
                None => None,
            };
            return Ok(ValidatedIntent { original: intent.duplicate(), canonical_subject });
        },
        _ => {},
    }
    let subject = match &intent.path {
        None => return Err(IntentValidationError::MissingSubject),
        Some(p) => p.as_str(),
    };
    let trimmed = trim(subject);
    if trimmed.as_str().is_empty() || str_eq(trimmed.as_str(), "null") {
        return Err(IntentValidationError::EmptySubject);
    }
    let fs_state = check(trimmed.as_str(), cwd, fs);
    match intent.action {
        ActionClass::ReadFile | ActionClass::EditFile => {
            if fs_state.exists && fs_state.is_dir {
                return Err(IntentValidationError::InvalidPath);
            }
        },
        ActionClass::ListDirectory => {
            if fs_state.exists && !fs_state.is_dir {
                return Err(IntentValidationError::InvalidPath);
            }
        },
        _ => {},
    }
    Ok(ValidatedIntent { original: intent.duplicate(), canonical_subject: Some(fs_state.abs_path) })
}

} // verus!
