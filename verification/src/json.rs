//! The JSON reader and writer that the library relies on.
//!
//! Reading and writing JSON is the work of the `nojson` crate. What it returns
//! depends on the text alone, so each result has a name here, and the functions of
//! this module are believed to return what the names stand for. A value inside a
//! parsed document is found by its index: the document's own value has index 0,
//! and `nojson` hands out the indices of an object's members.

use vstd::prelude::*;

verus! {

/// `nojson::RawJsonOwned`: a text that has been read as one JSON value, together with
/// what was found in it. Nothing is known of it but what the names below say.
#[verifier::external_type_specification]
#[verifier::external_body]
pub struct ExRawJsonOwned(nojson::RawJsonOwned);

/// The kind of a JSON value.
#[derive(Clone, Copy, Debug, PartialEq, Eq, Structural)]
pub enum JsonKind {
    Null,
    Boolean,
    Integer,
    Float,
    String,
    Array,
    Object,
}

/// The text that a parsed document holds: the text it was read from.
pub uninterp spec fn document_text(doc: nojson::RawJsonOwned) -> Seq<char>;

/// The byte position at which reading `text` as one JSON value fails, or `None`
/// where `text` is one JSON value.
pub uninterp spec fn json_syntax_error(text: Seq<char>) -> Option<usize>;

/// The kind of the value with the given index in the document read from `text`, or
/// `None` where the document has no such value.
pub uninterp spec fn json_kind(text: Seq<char>, index: usize) -> Option<JsonKind>;

/// The members of the object with the given index in the document read from `text`,
/// in the order of the text, each as the index of its name and the index of its
/// value. Empty where the index does not name an object.
pub uninterp spec fn json_members(text: Seq<char>, index: usize) -> Seq<(usize, usize)>;

/// The characters of the string with the given index in the document read from
/// `text`, escape sequences resolved, or `None` where the index does not name a
/// string.
pub uninterp spec fn json_string(text: Seq<char>, index: usize) -> Option<Seq<char>>;

/// The number with the given index in the document read from `text`, or `None`
/// where the index does not name an integer that fits 64 signed bits.
pub uninterp spec fn json_integer(text: Seq<char>, index: usize) -> Option<i64>;

/// The document read from `text`, written out again by a formatter with the given
/// indent size and spacing. With an indent of 0 and without spacing it stands on one
/// line, without any space between its parts.
pub uninterp spec fn json_rendering(text: Seq<char>, indent: usize, spacing: bool) -> Seq<char>;

/// The character of a hexadecimal digit, in lower case.
pub open spec fn hex_digit(d: int) -> char {
    if d < 10 {
        crate::text::digit(d)
    } else if d == 10 {
        'a'
    } else if d == 11 {
        'b'
    } else if d == 12 {
        'c'
    } else if d == 13 {
        'd'
    } else if d == 14 {
        'e'
    } else {
        'f'
    }
}

/// One character as it stands in a JSON string: the double quote, the backslash and
/// the control characters are escaped, the control characters that have a short
/// escape with it and the others by their code in four hexadecimal digits. Any other
/// character stands for itself.
pub open spec fn json_escaped(c: char) -> Seq<char> {
    if c == '"' {
        seq!['\\', '"']
    } else if c == '\\' {
        seq!['\\', '\\']
    } else if c == '\n' {
        seq!['\\', 'n']
    } else if c == '\r' {
        seq!['\\', 'r']
    } else if c == '\t' {
        seq!['\\', 't']
    } else if c == '\u{8}' {
        seq!['\\', 'b']
    } else if c == '\u{c}' {
        seq!['\\', 'f']
    } else if (c as u32) < 0x20 {
        seq!['\\', 'u', '0', '0', hex_digit((c as u32 / 16) as int), hex_digit((c as u32 % 16) as int)]
    } else {
        seq![c]
    }
}

/// The characters of `text` as they stand in a JSON string.
pub open spec fn json_escaped_text(text: Seq<char>) -> Seq<char>
    decreases text.len(),
{
    if text.len() == 0 {
        Seq::empty()
    } else {
        json_escaped_text(text.drop_last()) + json_escaped(text.last())
    }
}

/// `text` as a JSON string: between double quotes, with the characters escaped that
/// JSON does not allow in a string as they are.
pub open spec fn json_quoted(text: Seq<char>) -> Seq<char> {
    seq!['"'] + json_escaped_text(text) + seq!['"']
}

/// `nojson::RawJsonOwned::parse`: reads `text` as one JSON value. The document that
/// comes back holds the text; of an error only the byte position is kept.
#[verifier::external_body]
pub(crate) fn parse_document(text: &str) -> (result: Result<nojson::RawJsonOwned, usize>)
    ensures
        match result {
            Ok(doc) => json_syntax_error(text@) is None && document_text(doc) == text@,
            Err(position) => json_syntax_error(text@) == Some(position),
        },
{
    nojson::RawJsonOwned::parse(text).map_err(|e| e.position())
}

/// `nojson::RawJsonValue::kind` of the value that
/// `nojson::RawJsonOwned::get_value_by_index` finds.
#[verifier::external_body]
pub(crate) fn kind_at(doc: &nojson::RawJsonOwned, index: usize) -> (kind: Option<JsonKind>)
    ensures
        kind == json_kind(document_text(*doc), index),
{
    doc.get_value_by_index(index).map(|v| match v.kind() {
        nojson::JsonValueKind::Null => JsonKind::Null,
        nojson::JsonValueKind::Boolean => JsonKind::Boolean,
        nojson::JsonValueKind::Integer => JsonKind::Integer,
        nojson::JsonValueKind::Float => JsonKind::Float,
        nojson::JsonValueKind::String => JsonKind::String,
        nojson::JsonValueKind::Array => JsonKind::Array,
        nojson::JsonValueKind::Object => JsonKind::Object,
    })
}

/// `nojson::RawJsonValue::to_object` of the value with the given index: the pairs
/// that it yields, each as the indices of the two values.
#[verifier::external_body]
pub(crate) fn members_at(doc: &nojson::RawJsonOwned, index: usize) -> (members: Vec<
    (usize, usize),
>)
    ensures
        members@ == json_members(document_text(*doc), index),
{
    doc.get_value_by_index(index)
        .and_then(|v| v.to_object().ok())
        .map(|pairs| pairs.map(|(name, value)| (name.index(), value.index())).collect())
        .unwrap_or_default()
}

/// `nojson::RawJsonValue::to_unquoted_string_str` of the value with the given index.
#[verifier::external_body]
pub(crate) fn string_at(doc: &nojson::RawJsonOwned, index: usize) -> (text: Option<String>)
    ensures
        match text {
            Some(text) => json_string(document_text(*doc), index) == Some(text@),
            None => json_string(document_text(*doc), index) is None,
        },
{
    doc.get_value_by_index(index)
        .and_then(|v| v.to_unquoted_string_str().ok())
        .map(|text| text.into_owned())
}

/// The conversion of a `nojson::RawJsonValue` to `i64`, of the value with the given
/// index.
#[verifier::external_body]
pub(crate) fn integer_at(doc: &nojson::RawJsonOwned, index: usize) -> (number: Option<i64>)
    ensures
        number == json_integer(document_text(*doc), index),
{
    doc.get_value_by_index(index).and_then(|v| i64::try_from(v).ok())
}

/// `nojson::json` with a formatter of the given indent and spacing, writing the
/// document's own value.
#[verifier::external_body]
pub(crate) fn rendered(doc: &nojson::RawJsonOwned, indent: usize, spacing: bool) -> (text: String)
    ensures
        text@ == json_rendering(document_text(*doc), indent, spacing),
{
    nojson::json(|f| {
        f.set_indent_size(indent);
        f.set_spacing(spacing);
        f.value(doc.value())
    }).to_string()
}

/// `nojson::Json` around a string, written out: the string as JSON. The formatter
/// writes a double quote, then the string piece by piece, escaping exactly the double
/// quote, the backslash and the bytes below 0x20, and a double quote again.
#[verifier::external_body]
pub(crate) fn quoted(text: &str) -> (json: String)
    ensures
        json@ == json_quoted(text@),
{
    nojson::Json(text).to_string()
}

} // verus!
