//! Checking the arguments of a tool call against what the tool declares.
use vstd::prelude::*;

use super::types::{ArgErrorView, ArgValidationError};
use crate::bridge::tools::{ArgField, ArgFieldView, ArgType, ToolKind};
use crate::json::JsonValue;
use crate::text::{owned, str_eq, trim, trim_seq};

verus! {

/// The name of the JSON type of `v`.
pub open spec fn json_type_spec(v: JsonValue) -> Seq<char> {
    match v {
        JsonValue::Null => "null"@,
        JsonValue::Bool(_) => "boolean"@,
        JsonValue::Number(_) => "number"@,
        JsonValue::Str(_) => "string"@,
        JsonValue::Array(_) => "array"@,
        JsonValue::Object(_) => "object"@,
    }
}

/// The name of the JSON type of `v`.
pub fn json_type(v: &JsonValue) -> (r: &'static str)
    ensures
        r@ == json_type_spec(*v),
{
    match v {
        JsonValue::Null => "null",
        JsonValue::Bool(_) => "boolean",
        JsonValue::Number(_) => "number",
        JsonValue::Str(_) => "string",
        JsonValue::Array(_) => "array",
        JsonValue::Object(_) => "object",
    }
}

/// What is wrong with the argument `f` among `args`, if anything.
pub open spec fn field_fault(args: JsonValue, f: ArgFieldView) -> Option<ArgErrorView> {
    match args.get_spec(f.name) {
        None => if f.required {
            Some(ArgErrorView::MissingRequired(f.name))
        } else {
            None
        },
        Some(v) => match f.ty {
            ArgType::String | ArgType::NonEmptyString => match v {
                JsonValue::Str(s) => if f.ty == ArgType::NonEmptyString && trim_seq(s@).len()
                    == 0 {
                    Some(ArgErrorView::EmptyValue(f.name))
                } else {
                    None
                },
                _ => Some(ArgErrorView::WrongType(f.name, "string"@, json_type_spec(v))),
            },
            ArgType::Number => match v {
                JsonValue::Number(_) => None,
                _ => Some(ArgErrorView::WrongType(f.name, "number"@, json_type_spec(v))),
            },
            ArgType::Bool => match v {
                JsonValue::Bool(_) => None,
                _ => Some(ArgErrorView::WrongType(f.name, "boolean"@, json_type_spec(v))),
            },
            ArgType::NonEmptyArray => match v {
                JsonValue::Array(a) => if a@.len() == 0 {
                    Some(ArgErrorView::EmptyValue(f.name))
                } else {
                    None
                },
                _ => Some(ArgErrorView::WrongType(f.name, "array"@, json_type_spec(v))),
            },
        },
    }
}

/// The fault of the first argument among `fields` that has one.
pub open spec fn fields_fault(args: JsonValue, fields: Seq<ArgFieldView>) -> Option<ArgErrorView>
    decreases fields.len(),
{
    if fields.len() == 0 {
        None
    } else {
        match field_fault(args, fields[0]) {
            Some(e) => Some(e),
            None => fields_fault(args, fields.drop_first()),
        }
    }
}

proof fn lemma_fields_fault_skip(args: JsonValue, fields: Seq<ArgFieldView>, i: int)
    requires
        0 <= i <= fields.len(),
        forall|k: int| 0 <= k < i ==> field_fault(args, #[trigger] fields[k]) is None,
    ensures
        fields_fault(args, fields) == fields_fault(args, fields.skip(i)),
    decreases i,
{
    if i > 0 {
        assert forall|k: int| 0 <= k < i - 1 implies field_fault(args, #[trigger] fields.drop_first()[k]) is None by {
            assert(fields.drop_first()[k] == fields[k + 1]);
        }
        lemma_fields_fault_skip(args, fields.drop_first(), i - 1);
        assert(fields.drop_first().skip(i - 1) =~= fields.skip(i));
    } else {
        assert(fields.skip(0) =~= fields);
    }
}

pub open spec fn fields_view(fields: &[ArgField]) -> Seq<ArgFieldView> {
    fields@.map_values(|f: ArgField| f@)
}

/// What is wrong with the argument `f` among `args`, if anything.
fn check_field(args: &JsonValue, f: &ArgField) -> (r: Option<ArgValidationError>)
    ensures
        match (r, field_fault(*args, f@)) {
            (Some(e), Some(v)) => e@ == v,
            (None, None) => true,
            _ => false,
        },
{
    let (name, kind, is_required) = match f {
        ArgField::Required(name, kind) => (*name, *kind, true),
        ArgField::Optional(name, kind) => (*name, *kind, false),
    };
    match args.get(name) {
        None => {
            if is_required {
                Some(ArgValidationError::MissingRequired(owned(name)))
            } else {
                None
            }
        },
        Some(v) => match kind {
            ArgType::String | ArgType::NonEmptyString => match v {
                JsonValue::Str(s) => {
                    if kind == ArgType::NonEmptyString && trim(s.as_str()).as_str().is_empty() {
                        Some(ArgValidationError::EmptyValue(owned(name)))
                    } else {
                        None
                    }
                },
                _ => Some(
                    ArgValidationError::WrongType {
                        field: owned(name),
                        expected: "string",
                        got: json_type(v),
                    },
                ),
            },
            ArgType::Number => match v {
                JsonValue::Number(_) => None,
                _ => Some(
                    ArgValidationError::WrongType {
                        field: owned(name),
                        expected: "number",
                        got: json_type(v),
                    },
                ),
            },
            ArgType::Bool => match v {
                JsonValue::Bool(_) => None,
                _ => Some(
                    ArgValidationError::WrongType {
                        field: owned(name),
                        expected: "boolean",
                        got: json_type(v),
                    },
                ),
            },
            ArgType::NonEmptyArray => match v {
                JsonValue::Array(a) => {
                    if a.len() == 0 {
                        Some(ArgValidationError::EmptyValue(owned(name)))
                    } else {
                        None
                    }
                },
                _ => Some(
                    ArgValidationError::WrongType {
                        field: owned(name),
                        expected: "array",
                        got: json_type(v),
                    },
                ),
            },
        },
    }
}

/// Checks each declared argument of `args` in order, then the tool's own
/// rule `semantic`; the first fault found is the error.
pub fn validate_fields<F: Fn(&JsonValue) -> Result<(), ArgValidationError>>(
    args: &JsonValue,
    fields: &[ArgField],
    semantic: F,
) -> (r: Result<(), ArgValidationError>)
    requires
        call_requires(semantic, (args,)),
    ensures
        match fields_fault(*args, fields_view(fields)) {
            Some(v) => r matches Err(e) && e@ == v,
            None => call_ensures(semantic, (args,), r),
        },
{
    let ghost fv = fields_view(fields);
    let mut i: usize = 0;
    while i < fields.len()
        invariant
            i <= fields@.len(),
            fv == fields_view(fields),
            forall|k: int| 0 <= k < i ==> field_fault(*args, #[trigger] fv[k]) is None,
        decreases fields@.len() - i,
    {
        match check_field(args, &fields[i]) {
            Some(e) => {
                proof {
                    lemma_fields_fault_skip(*args, fv, i as int);
                    assert(fv.skip(i as int)[0] == fv[i as int]);
                }
                return Err(e);
            },
            None => {},
        }
        i = i + 1;
    }
    proof {
        lemma_fields_fault_skip(*args, fv, i as int);
    }
    semantic(args)
}

/// The characters that make an edit's search string too vague when it
/// holds nothing else.
pub open spec fn vague_char(c: char) -> bool {
    c == '(' || c == ')' || c == '.' || c == '[' || c == ']' || c == '{' || c == '}' || c == '"'
        || c == '\'' || c == ' ' || c == '\t'
}

/// A member of `args` read as a string, empty when it is missing or not a
/// string.
pub open spec fn str_or_empty(args: JsonValue, key: Seq<char>) -> Seq<char> {
    match args.str_field(key) {
        Some(s) => s,
        None => Seq::empty(),
    }
}

/// The tool-specific rule of a tool's arguments, as values: the message of
/// the violation, if any.
pub open spec fn semantic_fault(kind: ToolKind, args: JsonValue) -> Option<Seq<char>> {
    match kind {
        ToolKind::NotebookEdit => if trim_seq(str_or_empty(args, "cell_id"@)).len() == 0 {
            Some("cell_id must not be empty — read the notebook first to get a valid cell ID"@)
        } else {
            None
        },
        ToolKind::Edit => {
            let old = str_or_empty(args, "old_string"@);
            let new = str_or_empty(args, "new_string"@);
            if old.len() == 0 {
                Some("old_string is empty — Edit requires a non-empty search string"@)
            } else if old == new {
                Some("old_string and new_string are identical — edit would be a no-op"@)
            } else if forall|i: int| 0 <= i < old.len() ==> vague_char(#[trigger] old[i]) {
                Some(
                    "old_string contains only punctuation or whitespace — too vague to match safely"@,
                )
            } else {
                None
            }
        },
        _ => None,
    }
}

fn str_member<'a>(args: &'a JsonValue, key: &str) -> (r: &'a str)
    ensures
        r@ == str_or_empty(*args, key@),
{
    match args.get_str(key) {
        Some(s) => s,
        None => {
            let e = "";
            proof {
                reveal_strlit("");
            }
            e
        },
    }
}

/// Checks the tool-specific rule of `kind` on `args`.
pub fn semantic_check(kind: &ToolKind, args: &JsonValue) -> (r: Result<(), ArgValidationError>)
    ensures
        match semantic_fault(*kind, *args) {
            Some(m) => r matches Err(e) && e@ == ArgErrorView::SemanticViolation(m),
            None => r is Ok,
        },
{
    match kind {
        ToolKind::NotebookEdit => {
            let cell_id = trim(str_member(args, "cell_id"));
            if cell_id.as_str().is_empty() {
                return Err(
                    ArgValidationError::SemanticViolation(
                        owned(
                            "cell_id must not be empty — read the notebook first to get a valid cell ID",
                        ),
                    ),
                );
            }
            Ok(())
        },
        ToolKind::Edit => {
            let old = str_member(args, "old_string");
            let new = str_member(args, "new_string");
            if old.is_empty() {
                return Err(
                    ArgValidationError::SemanticViolation(
                        owned("old_string is empty — Edit requires a non-empty search string"),
                    ),
                );
            }
            if str_eq(old, new) {
                return Err(
                    ArgValidationError::SemanticViolation(
                        owned("old_string and new_string are identical — edit would be a no-op"),
                    ),
                );
            }
            let v = crate::text::chars_of(old);
            let mut i: usize = 0;
            let mut trivial = true;
            while i < v.len()
                invariant
                    v@ == old@,
                    i <= v@.len(),
                    trivial == forall|k: int| 0 <= k < i ==> vague_char(#[trigger] v@[k]),
                decreases v@.len() - i,
            {
                let c = v[i];
                let vague = c == '(' || c == ')' || c == '.' || c == '[' || c == ']' || c == '{'
                    || c == '}' || c == '"' || c == '\'' || c == ' ' || c == '\t';
                proof {
                    if !vague {
                        assert(!vague_char(v@[i as int]));
                    }
                }
                trivial = trivial && vague;
                i = i + 1;
            }
            if trivial {
                return Err(
                    ArgValidationError::SemanticViolation(
                        owned(
                            "old_string contains only punctuation or whitespace — too vague to match safely",
                        ),
                    ),
                );
            }
            Ok(())
        },
        _ => Ok(()),
    }
}

/// Checks `args` against the declared arguments `fields` of the tool
/// `kind`, then against the tool's own rule.
pub fn validate_args(kind: &ToolKind, fields: &[ArgField], args: &JsonValue) -> (r: Result<
    (),
    ArgValidationError,
>)
    ensures
        match fields_fault(*args, fields_view(fields)) {
            Some(v) => r matches Err(e) && e@ == v,
            None => match semantic_fault(*kind, *args) {
                Some(m) => r matches Err(e) && e@ == ArgErrorView::SemanticViolation(m),
                None => r is Ok,
            },
        },
{
    let k = *kind;
    let rule = |a: &JsonValue| -> (r: Result<(), ArgValidationError>)
        ensures
            (match semantic_fault(k, *a) {
                Some(m) => r matches Err(e) && e@ == ArgErrorView::SemanticViolation(m),
                None => r is Ok,
            }),
        {
            semantic_check(&k, a)
        };
    validate_fields(args, fields, rule)
}


/// The name of the JSON type that an argument of type `t` must have.
pub open spec fn declared_type_name(t: ArgType) -> Seq<char> {
    match t {
        ArgType::String | ArgType::NonEmptyString => "string"@,
        ArgType::Number => "number"@,
        ArgType::Bool => "boolean"@,
        ArgType::NonEmptyArray => "array"@,
    }
}

/// `v` is a JSON value of the type that `t` declares.
pub open spec fn of_declared_type(v: JsonValue, t: ArgType) -> bool {
    match t {
        ArgType::String | ArgType::NonEmptyString => v is Str,
        ArgType::Number => v is Number,
        ArgType::Bool => v is Bool,
        ArgType::NonEmptyArray => v is Array,
    }
}

/// A present argument whose value is not of its declared JSON type is
/// refused as of the wrong type, naming the argument, the type it must
/// have and the type it has.
pub proof fn lemma_argument_of_wrong_type_refused(args: JsonValue, f: ArgFieldView, v: JsonValue)
    requires
        args.get_spec(f.name) == Some(v),
        !of_declared_type(v, f.ty),
    ensures
        field_fault(args, f) == Some(ArgErrorView::WrongType(f.name, declared_type_name(f.ty), json_type_spec(v))),
{
}

/// A missing argument is refused as missing when it is required, and is
/// fine when it is optional.
pub proof fn lemma_missing_argument(args: JsonValue, f: ArgFieldView)
    requires
        args.get_spec(f.name) is None,
    ensures
        field_fault(args, f) == if f.required {
            Some(ArgErrorView::MissingRequired(f.name))
        } else {
            None
        },
{
}

} // verus!
