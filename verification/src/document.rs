//! Reading a JSON text into the plain values that envelope validation works on.

use crate::envelope::{
    Member, MemberValue, MemberValueView, MemberView, ParsedValue, ParsedValueView,
};
use crate::json::{
    document_text, integer_at, json_integer, json_kind, json_members, json_string,
    json_syntax_error, kind_at, members_at, parse_document, string_at, JsonKind,
};
use crate::text::{decimal_digits, natural_text};
use vstd::prelude::*;
use vstd::string::*;

verus! {

/// A text that is not one JSON value.
#[derive(Clone, Copy, Debug, PartialEq, Eq, Structural)]
pub struct SyntaxError {
    /// The byte position at which reading stopped.
    pub position: usize,
}

impl SyntaxError {
    /// The sentence that `message` returns.
    pub open spec fn message_text(self) -> Seq<char> {
        "invalid JSON at byte position "@ + decimal_digits(self.position as nat)
    }

    /// Says where the text stops to be JSON.
    pub fn message(&self) -> (text: String)
        ensures
            text@ == self.message_text(),
    {
        String::from_str("invalid JSON at byte position ").concat(
            natural_text(self.position as u64).as_str(),
        )
    }
}

/// The value with the given index in the document read from `text`, as the value of
/// a member.
pub open spec fn member_value_at(text: Seq<char>, index: usize) -> MemberValueView {
    match json_kind(text, index) {
        Some(JsonKind::Boolean) => MemberValueView::Boolean,
        Some(JsonKind::Integer) => match json_integer(text, index) {
            Some(n) => MemberValueView::Integer(n),
            None => MemberValueView::WideInteger,
        },
        Some(JsonKind::Float) => MemberValueView::Float,
        Some(JsonKind::String) => MemberValueView::String(string_or_empty(text, index)),
        Some(JsonKind::Array) => MemberValueView::Array,
        Some(JsonKind::Object) => MemberValueView::Object,
        Some(JsonKind::Null) | None => MemberValueView::Null,
    }
}

/// The characters of the string with the given index, and none where the index names
/// no string.
pub open spec fn string_or_empty(text: Seq<char>, index: usize) -> Seq<char> {
    match json_string(text, index) {
        Some(characters) => characters,
        None => Seq::empty(),
    }
}

/// The member whose name and value have the given indices.
pub open spec fn member_at(text: Seq<char>, indices: (usize, usize)) -> MemberView {
    MemberView {
        name: string_or_empty(text, indices.0),
        value: member_value_at(text, indices.1),
    }
}

/// The kind of the document's own value.
pub open spec fn root_kind(text: Seq<char>) -> JsonKind {
    match json_kind(text, 0) {
        Some(kind) => kind,
        None => JsonKind::Null,
    }
}

/// What envelope validation reads of the document that `text` holds.
pub open spec fn parsed_value(text: Seq<char>) -> ParsedValueView {
    ParsedValueView {
        kind: root_kind(text),
        members: json_members(text, 0).map_values(
            |indices: (usize, usize)| member_at(text, indices),
        ),
    }
}

/// What reading `text` gives: the document's value, or where the text stops to be
/// JSON.
pub open spec fn parse_outcome(text: Seq<char>) -> Result<ParsedValueView, SyntaxError> {
    match json_syntax_error(text) {
        Some(position) => Err(SyntaxError { position }),
        None => Ok(parsed_value(text)),
    }
}

fn read_string(doc: &nojson::RawJsonOwned, index: usize) -> (text: String)
    ensures
        text@ == string_or_empty(document_text(*doc), index),
{
    match string_at(doc, index) {
        Some(text) => text,
        None => String::new(),
    }
}

fn read_member_value(doc: &nojson::RawJsonOwned, index: usize) -> (value: MemberValue)
    ensures
        value@ == member_value_at(document_text(*doc), index),
{
    match kind_at(doc, index) {
        Some(JsonKind::Boolean) => MemberValue::Boolean,
        Some(JsonKind::Integer) => match integer_at(doc, index) {
            Some(n) => MemberValue::Integer(n),
            None => MemberValue::WideInteger,
        },
        Some(JsonKind::Float) => MemberValue::Float,
        Some(JsonKind::String) => MemberValue::String(read_string(doc, index)),
        Some(JsonKind::Array) => MemberValue::Array,
        Some(JsonKind::Object) => MemberValue::Object,
        Some(JsonKind::Null) => MemberValue::Null,
        None => MemberValue::Null,
    }
}

/// Reads of a parsed document what envelope validation needs.
pub(crate) fn read_value(doc: &nojson::RawJsonOwned) -> (value: ParsedValue)
    ensures
        value@ == parsed_value(document_text(*doc)),
{
    let ghost text = document_text(*doc);
    let kind = match kind_at(doc, 0) {
        Some(kind) => kind,
        None => JsonKind::Null,
    };
    let indices = members_at(doc, 0);
    let mut members: Vec<Member> = Vec::new();
    let mut i: usize = 0;
    while i < indices.len()
        invariant
            i <= indices.len(),
            text == document_text(*doc),
            indices@ == json_members(text, 0),
            members@.len() == i,
            forall|j: int| 0 <= j < i ==> (#[trigger] members@[j])@ == member_at(text, indices@[j]),
        decreases indices.len() - i,
    {
        let (name_index, value_index) = indices[i];
        let member = Member {
            name: read_string(doc, name_index),
            value: read_member_value(doc, value_index),
        };
        members.push(member);
        i += 1;
    }
    let value = ParsedValue { kind, members };
    assert(value@.members =~= parsed_value(text).members);
    value
}

impl ParsedValue {
    /// Reads `text` as one JSON value.
    pub fn parse(text: &str) -> (result: Result<ParsedValue, SyntaxError>)
        ensures
            match result {
                Ok(value) => parse_outcome(text@) == Ok::<ParsedValueView, SyntaxError>(value@),
                Err(error) => parse_outcome(text@) == Err::<ParsedValueView, SyntaxError>(error),
            },
    {
        match parse_document(text) {
            Ok(doc) => Ok(read_value(&doc)),
            Err(position) => Err(SyntaxError { position }),
        }
    }
}

} // verus!
