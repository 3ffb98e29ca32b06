//! Why the arguments of a tool call are refused.
use vstd::prelude::*;

use crate::text::push_str;

verus! {

/// Why the arguments of a tool call are refused.
#[derive(Debug)]
pub enum ArgValidationError {
    MissingRequired(String),
    WrongType { field: String, expected: &'static str, got: &'static str },
    EmptyValue(String),
    SemanticViolation(String),
}

/// An `ArgValidationError`, as values.
pub enum ArgErrorView {
    MissingRequired(Seq<char>),
    WrongType(Seq<char>, Seq<char>, Seq<char>),
    EmptyValue(Seq<char>),
    SemanticViolation(Seq<char>),
}

impl View for ArgValidationError {
    type V = ArgErrorView;

    open spec fn view(&self) -> ArgErrorView {
        match self {
            ArgValidationError::MissingRequired(f) => ArgErrorView::MissingRequired(f@),
            ArgValidationError::WrongType { field, expected, got } => ArgErrorView::WrongType(
                field@,
                expected@,
                got@,
            ),
            ArgValidationError::EmptyValue(f) => ArgErrorView::EmptyValue(f@),
            ArgValidationError::SemanticViolation(m) => ArgErrorView::SemanticViolation(m@),
        }
    }
}

impl ArgErrorView {
    /// The message that describes the error.
    pub open spec fn message(self) -> Seq<char> {
        match self {
            ArgErrorView::MissingRequired(f) => "required argument '"@ + f + "' is missing"@,
            ArgErrorView::WrongType(f, e, g) => "argument '"@ + f + "' expected "@ + e + ", got "@
                + g,
            ArgErrorView::EmptyValue(f) => "argument '"@ + f + "' must not be empty"@,
            ArgErrorView::SemanticViolation(m) => "semantic violation: "@ + m,
        }
    }
}

impl ArgValidationError {
    /// The message that describes the error.
    pub fn to_string(&self) -> (s: String)
        ensures
            s@ == self@.message(),
    {
        let mut s = String::new();
        match self {
            ArgValidationError::MissingRequired(f) => {
                push_str(&mut s, "required argument '");
                push_str(&mut s, f.as_str());
                push_str(&mut s, "' is missing");
            },
            ArgValidationError::WrongType { field, expected, got } => {
                push_str(&mut s, "argument '");
                push_str(&mut s, field.as_str());
                push_str(&mut s, "' expected ");
                push_str(&mut s, expected);
                push_str(&mut s, ", got ");
                push_str(&mut s, got);
            },
            ArgValidationError::EmptyValue(f) => {
                push_str(&mut s, "argument '");
                push_str(&mut s, f.as_str());
                push_str(&mut s, "' must not be empty");
            },
            ArgValidationError::SemanticViolation(m) => {
                push_str(&mut s, "semantic violation: ");
                push_str(&mut s, m.as_str());
            },
        }
        s
    }
}

} // verus!
