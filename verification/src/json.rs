//! The JSON columns: what the logic reads out of them and writes into them.
use crate::text;
use vstd::prelude::*;

verus! {

/// The strings of a JSON text that is an array of strings; `None` for any other text.
pub uninterp spec fn json_strings(json: Seq<char>) -> Option<Seq<Seq<char>>>;

/// The JSON text of an array of strings.
pub uninterp spec fn json_list(items: Seq<Seq<char>>) -> Seq<char>;

/// The string at a JSON pointer, where the text is JSON and holds a string there.
pub uninterp spec fn json_str_at(json: Seq<char>, pointer: Seq<char>) -> Option<Seq<char>>;

/// The boolean at a JSON pointer, where the text is JSON and holds a boolean there.
pub uninterp spec fn json_bool_at(json: Seq<char>, pointer: Seq<char>) -> Option<bool>;

/// The text of a JSON object with one member set to a boolean. Null counts as an object without members;
/// `None` where the text is neither.
pub uninterp spec fn json_with_bool(json: Seq<char>, key: Seq<char>, value: bool) -> Option<Seq<char>>;

/// The text of a JSON object with one member set to a string. Null counts as an object without members;
/// `None` where the text is neither.
pub uninterp spec fn json_with_str(json: Seq<char>, key: Seq<char>, value: Seq<char>) -> Option<Seq<char>>;

/// `serde_json::from_str` into a list of strings.
#[verifier::external_body]
pub(crate) fn strings(json: &str) -> (r: Option<Vec<String>>)
    ensures
        match r {
            Some(v) => json_strings(json@) == Some(text::texts(v@)),
            None => json_strings(json@) is None,
        },
{
    serde_json::from_str::<Vec<String>>(json).ok()
}

/// `serde_json::to_string` of a list of strings: reading it back gives the same list.
#[verifier::external_body]
pub(crate) fn list_text(items: &[String]) -> (r: String)
    ensures
        r@ == json_list(text::texts(items@)),
        json_strings(r@) == Some(text::texts(items@)),
{
    serde_json::to_string(items).expect("a list of strings is JSON")
}

/// `serde_json::from_str` into a value, `Value::pointer` and `Value::as_str`.
#[verifier::external_body]
pub(crate) fn str_at(json: &str, pointer: &str) -> (r: Option<String>)
    ensures
        text::opt(r) == json_str_at(json@, pointer@),
{
    let v: serde_json::Value = serde_json::from_str(json).ok()?;
    v.pointer(pointer)?.as_str().map(String::from)
}

/// `serde_json::from_str` into a value, `Value::pointer` and `Value::as_bool`.
#[verifier::external_body]
pub(crate) fn bool_at(json: &str, pointer: &str) -> (r: Option<bool>)
    ensures
        r == json_bool_at(json@, pointer@),
{
    let v: serde_json::Value = serde_json::from_str(json).ok()?;
    v.pointer(pointer)?.as_bool()
}

/// `serde_json::from_str` into a map of `RawValue`s, or an empty one where the text is null, an insert
/// of a boolean and `serde_json::to_string`: the other members stay as they are written. Nothing is said
/// of reading the member back: an object whose first member has the crate's private name for raw JSON
/// is not read as an object.
#[verifier::external_body]
pub(crate) fn with_bool(json: &str, key: &str, value: bool) -> (r: Option<String>)
    ensures
        text::opt(r) == json_with_bool(json@, key@, value),
{
    let read: Option<std::collections::BTreeMap<String, Box<serde_json::value::RawValue>>> =
        serde_json::from_str(json).ok()?;
    let mut m = read.unwrap_or_default();
    m.insert(key.to_owned(), serde_json::value::to_raw_value(&value).ok()?);
    serde_json::to_string(&m).ok()
}

/// `serde_json::from_str` into a map of `RawValue`s, or an empty one where the text is null, an insert
/// of a string and `serde_json::to_string`: the other members stay as they are written. Nothing is said
/// of reading the member back, as for a boolean.
#[verifier::external_body]
pub(crate) fn with_str(json: &str, key: &str, value: &str) -> (r: Option<String>)
    ensures
        text::opt(r) == json_with_str(json@, key@, value@),
{
    let read: Option<std::collections::BTreeMap<String, Box<serde_json::value::RawValue>>> =
        serde_json::from_str(json).ok()?;
    let mut m = read.unwrap_or_default();
    m.insert(key.to_owned(), serde_json::value::to_raw_value(value).ok()?);
    serde_json::to_string(&m).ok()
}

/// The value of a JSON text, written without blanks; `None` where the text is not JSON.
pub uninterp spec fn json_compact(json: Seq<char>) -> Option<Seq<char>>;

/// `serde_json::from_str` into a value and `Value::to_string`. A text that nests deeper than the reader
/// goes counts as none.
#[verifier::external_body]
pub(crate) fn compact(json: &str) -> (r: Option<String>)
    ensures
        text::opt(r) == json_compact(json@),
{
    serde_json::from_str::<serde_json::Value>(json).ok().map(|v| v.to_string())
}

/// What is shown of a stored JSON text: its value, or an empty object where it cannot be read.
pub open spec fn readable(json: Seq<char>) -> Seq<char> {
    match json_compact(json) {
        Some(t) => t,
        None => "{}"@,
    }
}

/// What is shown of a stored JSON text.
pub fn or_empty(json: &str) -> (r: String)
    ensures
        r@ == readable(json@),
{
    match compact(json) {
        Some(t) => t,
        None => "{}".to_owned(),
    }
}

/// A member of a JSON object that is written out.
#[derive(Debug, Clone, Copy)]
pub enum Field<'a> {
    Str(&'a str),
    Int(i64),
    Count(u64),
    Bool(bool),
    /// A JSON text, which is written as it is; null where the text is not JSON.
    Json(&'a str),
    Null,
}

/// What a `Field` holds.
pub enum FieldView {
    Str(Seq<char>),
    Int(i64),
    Count(u64),
    Bool(bool),
    Json(Seq<char>),
    Null,
}

impl<'a> View for Field<'a> {
    type V = FieldView;

    open spec fn view(&self) -> FieldView {
        match *self {
            Field::Str(s) => FieldView::Str(s@),
            Field::Int(n) => FieldView::Int(n),
            Field::Count(n) => FieldView::Count(n),
            Field::Bool(b) => FieldView::Bool(b),
            Field::Json(t) => FieldView::Json(t@),
            Field::Null => FieldView::Null,
        }
    }
}

/// A text, or null where there is none.
pub open spec fn text_view(o: Option<Seq<char>>) -> FieldView {
    match o {
        Some(s) => FieldView::Str(s),
        None => FieldView::Null,
    }
}

/// A number, or null where there is none.
pub open spec fn int_view(o: Option<i64>) -> FieldView {
    match o {
        Some(n) => FieldView::Int(n),
        None => FieldView::Null,
    }
}

pub fn text_or_null(o: &Option<String>) -> (r: Field<'_>)
    ensures
        r@ == text_view(text::opt(*o)),
{
    match o {
        Some(s) => Field::Str(s.as_str()),
        None => Field::Null,
    }
}

pub fn str_or_null(o: Option<&str>) -> (r: Field<'_>)
    ensures
        r@ == text_view(text::arg(o)),
{
    match o {
        Some(s) => Field::Str(s),
        None => Field::Null,
    }
}

pub fn int_or_null(o: Option<i64>) -> (r: Field<'static>)
    ensures
        r@ == int_view(o),
{
    match o {
        Some(n) => Field::Int(n),
        None => Field::Null,
    }
}

/// The members of an object, with their names.
pub open spec fn members(fields: Seq<(&str, Field)>) -> Seq<(Seq<char>, FieldView)> {
    fields.map_values(|f: (&str, Field)| (f.0@, f.1@))
}

/// The JSON text of an object with these members.
pub uninterp spec fn json_object(members: Seq<(Seq<char>, FieldView)>) -> Seq<char>;

/// `serde_json::value::to_raw_value` of each scalar, `RawValue::from_string` of each JSON text, and
/// `serde_json::to_string` of the map of them, by name: the text is a function of the members. A JSON
/// text is checked, however deep it nests, and goes in unread. Nothing is said of reading a member back.
#[verifier::external_body]
pub(crate) fn object(fields: &[(&str, Field)]) -> (r: String)
    ensures
        r@ == json_object(members(fields@)),
{
    let mut m = std::collections::BTreeMap::new();
    for (k, v) in fields {
        let raw = match v {
            Field::Str(s) => serde_json::value::to_raw_value(s),
            Field::Int(n) => serde_json::value::to_raw_value(n),
            Field::Count(n) => serde_json::value::to_raw_value(n),
            Field::Bool(b) => serde_json::value::to_raw_value(b),
            Field::Json(t) => serde_json::value::RawValue::from_string(t.to_string()),
            Field::Null => serde_json::value::to_raw_value(&()),
        };
        m.insert(*k, raw.ok());
    }
    serde_json::to_string(&m).expect("a map of JSON texts is JSON")
}

/// The JSON text of an array of these JSON texts.
pub uninterp spec fn json_array(items: Seq<Seq<char>>) -> Seq<char>;

/// `RawValue::from_string` of each item and `serde_json::to_string` of the list of them. An item is
/// checked, however deep it nests, and goes in unread; one that is not JSON stands as null.
#[verifier::external_body]
pub(crate) fn array(items: &Vec<String>) -> (r: String)
    ensures
        r@ == json_array(text::texts(items@)),
{
    let mut out = Vec::new();
    for item in items {
        out.push(serde_json::value::RawValue::from_string(item.clone()).ok());
    }
    serde_json::to_string(&out).expect("a list of JSON texts is JSON")
}

/// A JSON text laid out over several lines; the text itself where it is not JSON.
pub uninterp spec fn json_pretty(json: Seq<char>) -> Seq<char>;

/// `serde_json::from_str` and `serde_json::to_string_pretty`.
#[verifier::external_body]
pub(crate) fn pretty(json: &str) -> (r: String)
    ensures
        r@ == json_pretty(json@),
{
    let v: Option<serde_json::Value> = serde_json::from_str(json).ok();
    v.and_then(|v| serde_json::to_string_pretty(&v).ok()).unwrap_or_else(|| json.to_owned())
}

} // verus!
