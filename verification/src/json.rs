//! A JSON document as plain values.
//!
//! Request bodies, tool schemas and tool arguments arrive as JSON. The
//! library reads them through `JsonValue`, which holds a document the way
//! `serde_json` presents it: objects keep their keys in the order in which
//! `serde_json` walks them, and a number keeps its textual form.
use vstd::prelude::*;

use crate::text::{chars_of, str_eq};

verus! {

/// A JSON value.
#[derive(Debug)]
pub enum JsonValue {
    Null,
    Bool(bool),
    /// A number, in the textual form that `serde_json` prints for it.
    Number(String),
    Str(String),
    Array(Vec<JsonValue>),
    /// Key/value pairs, in iteration order.
    Object(Vec<(String, JsonValue)>),
}

/// The value stored under `key` among `fields`: the first pair with that key.
pub open spec fn fields_lookup(fields: Seq<(String, JsonValue)>, key: Seq<char>) -> Option<
    JsonValue,
>
    decreases fields.len(),
{
    if fields.len() == 0 {
        None
    } else if fields[0].0@ == key {
        Some(fields[0].1)
    } else {
        fields_lookup(fields.drop_first(), key)
    }
}

/// The index of the first pair with key `key`, if any.
pub open spec fn fields_index(fields: Seq<(String, JsonValue)>, key: Seq<char>) -> Option<int>
    decreases fields.len(),
{
    if fields.len() == 0 {
        None
    } else if fields[0].0@ == key {
        Some(0)
    } else {
        match fields_index(fields.drop_first(), key) {
            Some(i) => Some(i + 1),
            None => None,
        }
    }
}

pub proof fn lemma_fields_index(fields: Seq<(String, JsonValue)>, key: Seq<char>)
    ensures
        match fields_index(fields, key) {
            Some(i) => 0 <= i < fields.len() && fields[i].0@ == key && fields_lookup(fields, key)
                == Some(fields[i].1) && forall|j: int| 0 <= j < i ==> fields[j].0@ != key,
            None => fields_lookup(fields, key) is None && forall|j: int|
                0 <= j < fields.len() ==> fields[j].0@ != key,
        },
    decreases fields.len(),
{
    if fields.len() > 0 {
        lemma_fields_index(fields.drop_first(), key);
        if fields[0].0@ != key {
            match fields_index(fields.drop_first(), key) {
                Some(i) => {
                    assert forall|j: int| 0 <= j < i + 1 implies fields[j].0@ != key by {
                        if j > 0 {
                            assert(fields[j] == fields.drop_first()[j - 1]);
                        }
                    }
                },
                None => {
                    assert forall|j: int| 0 <= j < fields.len() implies fields[j].0@ != key by {
                        if j > 0 {
                            assert(fields[j] == fields.drop_first()[j - 1]);
                        }
                    }
                },
            }
        }
    }
}

impl JsonValue {
    /// `Value::get` with a string key: the member `key` of an object.
    pub open spec fn get_spec(&self, key: Seq<char>) -> Option<JsonValue> {
        match self {
            JsonValue::Object(fields) => fields_lookup(fields@, key),
            _ => None,
        }
    }

    /// `Value::as_str`.
    pub open spec fn as_str_spec(&self) -> Option<Seq<char>> {
        match self {
            JsonValue::Str(s) => Some(s@),
            _ => None,
        }
    }

    /// The string stored under `key`, if the member exists and is a string.
    pub open spec fn str_field(&self, key: Seq<char>) -> Option<Seq<char>> {
        match self.get_spec(key) {
            Some(v) => v.as_str_spec(),
            None => None,
        }
    }

    /// `Value::get`: the member `key` of an object.
    pub fn get(&self, key: &str) -> (r: Option<&JsonValue>)
        ensures
            match r {
                Some(v) => self.get_spec(key@) == Some(*v),
                None => self.get_spec(key@) is None,
            },
    {
        match self {
            JsonValue::Object(fields) => {
                let mut i: usize = 0;
                while i < fields.len()
                    invariant
                        self.get_spec(key@) == fields_lookup(fields@, key@),
                        i <= fields@.len(),
                        forall|j: int| 0 <= j < i ==> fields@[j].0@ != key@,
                    decreases fields@.len() - i,
                {
                    if str_eq(fields[i].0.as_str(), key) {
                        proof {
                            lemma_fields_index(fields@, key@);
                            match fields_index(fields@, key@) {
                                Some(j) => {
                                    if j > i {
                                        assert(fields@[i as int].0@ != key@);
                                    }
                                },
                                None => {
                                    assert(fields@[i as int].0@ != key@);
                                },
                            }
                        }
                        return Some(&fields[i].1);
                    }
                    i = i + 1;
                }
                proof {
                    lemma_fields_index(fields@, key@);
                }
                None
            },
            _ => None,
        }
    }

    /// `Value::as_str`.
    pub fn as_str(&self) -> (r: Option<&str>)
        ensures
            match r {
                Some(s) => self.as_str_spec() == Some(s@),
                None => self.as_str_spec() is None,
            },
    {
        match self {
            JsonValue::Str(s) => Some(s.as_str()),
            _ => None,
        }
    }

    /// The string stored under `key`, if the member exists and is a string.
    pub fn get_str(&self, key: &str) -> (r: Option<&str>)
        ensures
            match r {
                Some(s) => self.str_field(key@) == Some(s@),
                None => self.str_field(key@) is None,
            },
    {
        match self.get(key) {
            Some(v) => v.as_str(),
            None => None,
        }
    }

    /// `Value::as_object`.
    pub fn as_object(&self) -> (r: Option<&Vec<(String, JsonValue)>>)
        ensures
            match r {
                Some(f) => *self == JsonValue::Object(*f),
                None => !(self is Object),
            },
    {
        match self {
            JsonValue::Object(f) => Some(f),
            _ => None,
        }
    }

    /// Whether this is a string.
    pub fn is_string(&self) -> (b: bool)
        ensures
            b == self is Str,
    {
        match self {
            JsonValue::Str(_) => true,
            _ => false,
        }
    }

    /// Whether this is a number.
    pub fn is_number(&self) -> (b: bool)
        ensures
            b == self is Number,
    {
        match self {
            JsonValue::Number(_) => true,
            _ => false,
        }
    }

    /// Whether this is a boolean.
    pub fn is_boolean(&self) -> (b: bool)
        ensures
            b == self is Bool,
    {
        match self {
            JsonValue::Bool(_) => true,
            _ => false,
        }
    }
}

/// Whether `fields` has a member `key` (`Map::contains_key`).
pub fn fields_contain(fields: &Vec<(String, JsonValue)>, key: &str) -> (b: bool)
    ensures
        b == fields_lookup(fields@, key@) is Some,
{
    let mut i: usize = 0;
    while i < fields.len()
        invariant
            i <= fields@.len(),
            forall|j: int| 0 <= j < i ==> fields@[j].0@ != key@,
        decreases fields@.len() - i,
    {
        if str_eq(fields[i].0.as_str(), key) {
            proof {
                lemma_fields_index(fields@, key@);
                match fields_index(fields@, key@) {
                    Some(j) => {},
                    None => {
                        assert(fields@[i as int].0@ != key@);
                    },
                }
            }
            return true;
        }
        i = i + 1;
    }
    proof {
        lemma_fields_index(fields@, key@);
    }
    false
}

/// An object with a single string member.
pub fn object1(key: &str, value: String) -> (r: JsonValue)
    ensures
        r matches JsonValue::Object(f) && f@.len() == 1 && f@[0].0@ == key@ && f@[0].1
            == JsonValue::Str(value),
{
    let mut fields: Vec<(String, JsonValue)> = Vec::new();
    fields.push((crate::text::owned(key), JsonValue::Str(value)));
    JsonValue::Object(fields)
}

} // verus!

verus! {

/// The hexadecimal digit for `d < 16`, lower case.
pub open spec fn hex_digit(d: nat) -> char {
    if d < 10 {
        ((d + 48) as u32) as char
    } else {
        ((d + 87) as u32) as char
    }
}

/// How `serde_json` writes the character `c` inside a string: quote and
/// backslash escaped, the usual control characters by letter, the other
/// control characters as `\u00XX`, everything else as it is.
pub open spec fn escaped_char(c: char) -> Seq<char> {
    let n = c as u32;
    if c == '"' {
        seq!['\\', '"']
    } else if c == '\\' {
        seq!['\\', '\\']
    } else if n == 8 {
        seq!['\\', 'b']
    } else if n == 12 {
        seq!['\\', 'f']
    } else if c == '\n' {
        seq!['\\', 'n']
    } else if c == '\r' {
        seq!['\\', 'r']
    } else if c == '\t' {
        seq!['\\', 't']
    } else if n < 32 {
        seq!['\\', 'u', '0', '0', hex_digit((n / 16) as nat), hex_digit((n % 16) as nat)]
    } else {
        seq![c]
    }
}

/// The characters of `s`, each as `serde_json` writes it inside a string.
pub open spec fn escaped(s: Seq<char>) -> Seq<char>
    decreases s.len(),
{
    if s.len() == 0 {
        Seq::empty()
    } else {
        escaped(s.drop_last()) + escaped_char(s.last())
    }
}

/// `s` as a JSON string literal.
pub open spec fn quoted(s: Seq<char>) -> Seq<char> {
    seq!['"'] + escaped(s) + seq!['"']
}

/// `serde_json::to_string` of a string slice: the slice as a JSON string
/// literal, escaped by the rule of `escaped_char`. Writing to memory
/// cannot fail, so the error arm is never taken.
#[verifier::external_body]
pub(crate) fn json_quote(s: &str) -> (r: String)
    ensures
        r@ == quoted(s@),
{
    match serde_json::to_string(s) {
        Ok(t) => t,
        Err(_) => String::new(),
    }
}

} // verus!

verus! {

/// A JSON value as plain mathematical values.
pub enum JsonView {
    Null,
    Bool(bool),
    Number(Seq<char>),
    Str(Seq<char>),
    Array(Seq<JsonView>),
    Object(Seq<(Seq<char>, JsonView)>),
}

impl JsonValue {
    /// The value with its strings and collections as plain values.
    pub open spec fn deep(self) -> JsonView
        decreases self,
    {
        match self {
            JsonValue::Null => JsonView::Null,
            JsonValue::Bool(b) => JsonView::Bool(b),
            JsonValue::Number(n) => JsonView::Number(n@),
            JsonValue::Str(s) => JsonView::Str(s@),
            JsonValue::Array(a) => JsonView::Array(deep_values(a@)),
            JsonValue::Object(f) => JsonView::Object(deep_fields(f@)),
        }
    }
}

/// Each value of `s` as plain values.
pub open spec fn deep_values(s: Seq<JsonValue>) -> Seq<JsonView>
    decreases s,
{
    if s.len() == 0 {
        Seq::empty()
    } else {
        deep_values(s.subrange(0, s.len() - 1)).push(s[s.len() - 1].deep())
    }
}

/// Each member of `s` as plain values.
pub open spec fn deep_fields(s: Seq<(String, JsonValue)>) -> Seq<(Seq<char>, JsonView)>
    decreases s,
{
    if s.len() == 0 {
        Seq::empty()
    } else {
        deep_fields(s.subrange(0, s.len() - 1)).push((s[s.len() - 1].0@, s[s.len() - 1].1.deep()))
    }
}

} // verus!

verus! {

impl JsonValue {
    /// A copy of the value.
    pub fn duplicate(&self) -> (r: JsonValue)
        ensures
            r.deep() == self.deep(),
        decreases self,
    {
        match self {
            JsonValue::Null => JsonValue::Null,
            JsonValue::Bool(b) => JsonValue::Bool(*b),
            JsonValue::Number(n) => JsonValue::Number(n.clone()),
            JsonValue::Str(s) => JsonValue::Str(s.clone()),
            JsonValue::Array(a) => {
                let mut out: Vec<JsonValue> = Vec::new();
                let mut i: usize = 0;
                while i < a.len()
                    invariant
                        i <= a@.len(),
                        deep_values(out@) == deep_values(a@.subrange(0, i as int)),
                    decreases a@.len() - i,
                {
                    proof {
                        vstd::std_specs::vec::axiom_vec_index_decreases(*a, i as int);
                    }
                    let x = a[i].duplicate();
                    let ghost before = out@;
                    out.push(x);
                    proof {
                        assert(out@.subrange(0, out@.len() - 1) =~= before);
                        assert(a@.subrange(0, i + 1).subrange(0, i as int) =~= a@.subrange(0, i as int));
                    }
                    i = i + 1;
                }
                proof {
                    assert(a@.subrange(0, a@.len() as int) =~= a@);
                }
                JsonValue::Array(out)
            },
            JsonValue::Object(f) => {
                let mut out: Vec<(String, JsonValue)> = Vec::new();
                let mut i: usize = 0;
                while i < f.len()
                    invariant
                        i <= f@.len(),
                        deep_fields(out@) == deep_fields(f@.subrange(0, i as int)),
                    decreases f@.len() - i,
                {
                    proof {
                        vstd::std_specs::vec::axiom_vec_index_decreases(*f, i as int);
                    }
                    let k = f[i].0.clone();
                    let x = f[i].1.duplicate();
                    let ghost before = out@;
                    out.push((k, x));
                    proof {
                        assert(out@.subrange(0, out@.len() - 1) =~= before);
                        assert(f@.subrange(0, i + 1).subrange(0, i as int) =~= f@.subrange(0, i as int));
                    }
                    i = i + 1;
                }
                proof {
                    assert(f@.subrange(0, f@.len() as int) =~= f@);
                }
                JsonValue::Object(out)
            },
        }
    }
}

/// Copies of the values of `v`.
pub fn duplicate_all(v: &Vec<JsonValue>) -> (r: Vec<JsonValue>)
    ensures
        deep_values(r@) == deep_values(v@),
{
    let mut out: Vec<JsonValue> = Vec::new();
    let mut i: usize = 0;
    while i < v.len()
        invariant
            i <= v@.len(),
            deep_values(out@) == deep_values(v@.subrange(0, i as int)),
        decreases v@.len() - i,
    {
        let x = v[i].duplicate();
        let ghost before = out@;
        out.push(x);
        proof {
            assert(out@.subrange(0, out@.len() - 1) =~= before);
            assert(v@.subrange(0, i + 1).subrange(0, i as int) =~= v@.subrange(0, i as int));
        }
        i = i + 1;
    }
    proof {
        assert(v@.subrange(0, v@.len() as int) =~= v@);
    }
    out
}

} // verus!

verus! {

/// A string value.
pub fn jstr(s: &str) -> (r: JsonValue)
    ensures
        r.deep() == JsonView::Str(s@),
{
    JsonValue::Str(crate::text::owned(s))
}

/// An array of string values.
pub fn jstrs(ss: &[&str]) -> (r: JsonValue)
    ensures
        r.deep() == JsonView::Array(ss@.map_values(|s: &str| JsonView::Str(s@))),
{
    let mut out: Vec<JsonValue> = Vec::new();
    let mut i: usize = 0;
    while i < ss.len()
        invariant
            i <= ss@.len(),
            deep_values(out@) == ss@.take(i as int).map_values(|s: &str| JsonView::Str(s@)),
        decreases ss@.len() - i,
    {
        let v = jstr(ss[i]);
        let ghost before = out@;
        out.push(v);
        proof {
            assert(out@.subrange(0, out@.len() - 1) =~= before);
            assert(ss@.take(i + 1).map_values(|s: &str| JsonView::Str(s@)) =~= ss@.take(
                i as int,
            ).map_values(|s: &str| JsonView::Str(s@)).push(JsonView::Str(ss@[i as int]@)));
        }
        i = i + 1;
    }
    proof {
        assert(ss@.take(ss@.len() as int) =~= ss@);
    }
    JsonValue::Array(out)
}

/// Appends the member `key: v` to the members `fields`.
pub fn push_member(fields: &mut Vec<(String, JsonValue)>, key: &str, v: JsonValue)
    ensures
        deep_fields(final(fields)@) == deep_fields(old(fields)@).push((key@, v.deep())),
{
    let ghost before = fields@;
    fields.push((crate::text::owned(key), v));
    proof {
        assert(fields@.subrange(0, fields@.len() - 1) =~= before);
    }
}

} // verus!

verus! {

/// The position of the first member with key `key`.
pub open spec fn view_index(fs: Seq<(Seq<char>, JsonView)>, key: Seq<char>) -> Option<int>
    decreases fs.len(),
{
    if fs.len() == 0 {
        None
    } else if fs[0].0 == key {
        Some(0)
    } else {
        match view_index(fs.drop_first(), key) {
            Some(i) => Some(i + 1),
            None => None,
        }
    }
}

pub proof fn lemma_deep_fields_shape(s: Seq<(String, JsonValue)>)
    ensures
        deep_fields(s).len() == s.len(),
        forall|i: int| 0 <= i < s.len() ==> #[trigger] deep_fields(s)[i] == (s[i].0@, s[i].1.deep()),
    decreases s.len(),
{
    if s.len() > 0 {
        lemma_deep_fields_shape(s.subrange(0, s.len() - 1));
    }
}

pub proof fn lemma_deep_fields_update(s: Seq<(String, JsonValue)>, i: int, x: (String, JsonValue))
    requires
        0 <= i < s.len(),
    ensures
        deep_fields(s.update(i, x)) == deep_fields(s).update(i, (x.0@, x.1.deep())),
{
    lemma_deep_fields_shape(s);
    lemma_deep_fields_shape(s.update(i, x));
    assert(deep_fields(s.update(i, x)) =~= deep_fields(s).update(i, (x.0@, x.1.deep())));
}

pub proof fn lemma_view_index(s: Seq<(String, JsonValue)>, key: Seq<char>)
    ensures
        view_index(deep_fields(s), key) == fields_index(s, key),
    decreases s.len(),
{
    lemma_deep_fields_shape(s);
    if s.len() > 0 {
        lemma_deep_fields_shape(s.drop_first());
        assert(deep_fields(s).drop_first() =~= deep_fields(s.drop_first()));
        lemma_view_index(s.drop_first(), key);
    }
}

} // verus!

verus! {

#[verifier::external_type_specification]
#[verifier::external_body]
pub struct ExSerdeValue(serde_json::Value);

/// The document that `serde_json::from_str` reads from `text`, when `text`
/// is valid JSON.
pub uninterp spec fn parsed_json(text: Seq<char>) -> Option<JsonView>;

/// `serde_json::from_str::<serde_json::Value>`: the document that `text`
/// holds, or nothing when it is not valid JSON. The contract names the
/// result and says no more of it.
#[verifier::external_body]
pub(crate) fn parse_json(text: &str) -> (r: Option<JsonValue>)
    ensures
        match r {
            Some(v) => parsed_json(text@) == Some(v.deep()),
            None => parsed_json(text@) is None,
        },
{
    match serde_json::from_str::<serde_json::Value>(text) {
        Ok(v) => Some(of_serde(v)),
        Err(_) => None,
    }
}

/// The document that `llm_json::loads` makes of `text` with the default
/// repair options, when it can repair it.
pub uninterp spec fn repaired_json(text: Seq<char>) -> Option<JsonView>;

/// The number of opening brackets, `[` and `{`, in `s`.
pub open spec fn open_brackets(s: Seq<char>) -> nat
    decreases s.len(),
{
    if s.len() == 0 {
        0
    } else {
        open_brackets(s.drop_last()) + if s.last() == '[' || s.last() == '{' {
            1nat
        } else {
            0nat
        }
    }
}

/// The most opening brackets that a text handed to `llm_json` may hold: its
/// repair parser descends one level for each opening bracket it meets, with
/// no limit of its own, so this bounds how deep it recurses.
pub const REPAIR_BRACKET_LIMIT: usize = 256;

/// The number of opening brackets in `s`.
pub fn count_open_brackets(s: &str) -> (n: usize)
    ensures
        n == open_brackets(s@),
{
    let v = chars_of(s);
    let mut n: usize = 0;
    let mut i: usize = 0;
    while i < v.len()
        invariant
            i <= v@.len(),
            n == open_brackets(v@.take(i as int)),
            n <= i,
        decreases v@.len() - i,
    {
        proof {
            assert(v@.take(i + 1).drop_last() =~= v@.take(i as int));
        }
        if v[i] == '[' || v[i] == '{' {
            n = n + 1;
        }
        i = i + 1;
    }
    proof {
        assert(v@.take(v@.len() as int) =~= v@);
    }
    n
}

/// `llm_json::loads` with `RepairOptions::default()`: the document in a
/// language model's reply, repaired where it is broken, or nothing when it
/// is past repair. The contract names the result and says no more of it.
/// The repair parser recurses once per level of nesting without a limit,
/// so the text's opening brackets are bounded, which keeps it within the
/// stack.
#[verifier::external_body]
pub(crate) fn repair_json(text: &str) -> (r: Option<JsonValue>)
    requires
        open_brackets(text@) <= REPAIR_BRACKET_LIMIT,
    ensures
        match r {
            Some(v) => repaired_json(text@) == Some(v.deep()),
            None => repaired_json(text@) is None,
        },
{
    match llm_json::loads(text, &llm_json::RepairOptions::default()) {
        Ok(v) => Some(of_serde(v)),
        Err(_) => None,
    }
}

/// A `serde_json::Value` as a `JsonValue`, variant for variant, the members
/// of an object in the order in which `serde_json` walks them.
#[verifier::external_body]
fn of_serde(v: serde_json::Value) -> JsonValue {
    match v {
        serde_json::Value::Null => JsonValue::Null,
        serde_json::Value::Bool(b) => JsonValue::Bool(b),
        serde_json::Value::Number(n) => JsonValue::Number(n.to_string()),
        serde_json::Value::String(s) => JsonValue::Str(s),
        serde_json::Value::Array(a) => JsonValue::Array(a.into_iter().map(of_serde).collect()),
        serde_json::Value::Object(m) => JsonValue::Object(
            m.into_iter().map(|(k, x)| (k, of_serde(x))).collect(),
        ),
    }
}

} // verus!
