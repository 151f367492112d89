//! JSON-RPC 2.0 envelopes: what a request and a response must look like.
//!
//! Validation works on a `ParsedValue`, which holds as plain values what the rules
//! read of a JSON value: its kind and, of an object, the name and the value of each
//! member in the order of the text.

use crate::json::JsonKind;
use crate::text::text_eq;
use vstd::prelude::*;

verus! {

/// The id that ties a response to its request.
#[derive(Debug, Clone, PartialEq, Eq, Hash, PartialOrd, Ord)]
pub enum RequestId {
    Number(i64),
    String(String),
}

/// A `RequestId` with its text as a sequence of characters.
pub enum RequestIdView {
    Number(i64),
    String(Seq<char>),
}

impl View for RequestId {
    type V = RequestIdView;

    open spec fn view(&self) -> RequestIdView {
        match self {
            RequestId::Number(n) => RequestIdView::Number(*n),
            RequestId::String(s) => RequestIdView::String(s@),
        }
    }
}

/// The value of an object's member, as far as an envelope depends on it.
#[derive(Debug, Clone, PartialEq, Eq)]
pub enum MemberValue {
    Null,
    Boolean,
    /// An integer that fits 64 signed bits.
    Integer(i64),
    /// An integer that does not.
    WideInteger,
    Float,
    /// A string, with its escape sequences resolved.
    String(String),
    Array,
    Object,
}

/// A `MemberValue` with its text as a sequence of characters.
pub enum MemberValueView {
    Null,
    Boolean,
    Integer(i64),
    WideInteger,
    Float,
    String(Seq<char>),
    Array,
    Object,
}

impl View for MemberValue {
    type V = MemberValueView;

    open spec fn view(&self) -> MemberValueView {
        match self {
            MemberValue::Null => MemberValueView::Null,
            MemberValue::Boolean => MemberValueView::Boolean,
            MemberValue::Integer(n) => MemberValueView::Integer(*n),
            MemberValue::WideInteger => MemberValueView::WideInteger,
            MemberValue::Float => MemberValueView::Float,
            MemberValue::String(s) => MemberValueView::String(s@),
            MemberValue::Array => MemberValueView::Array,
            MemberValue::Object => MemberValueView::Object,
        }
    }
}

/// One member of a JSON object.
#[derive(Debug, Clone, PartialEq, Eq)]
pub struct Member {
    /// The name, with its escape sequences resolved.
    pub name: String,
    pub value: MemberValue,
}

/// A `Member` with its texts as sequences of characters.
pub struct MemberView {
    pub name: Seq<char>,
    pub value: MemberValueView,
}

impl View for Member {
    type V = MemberView;

    open spec fn view(&self) -> MemberView {
        MemberView { name: self.name@, value: self.value@ }
    }
}

/// A JSON value as envelope validation reads it.
#[derive(Debug, Clone, PartialEq, Eq)]
pub struct ParsedValue {
    pub kind: JsonKind,
    /// The members in the order of the text, if the value is an object.
    pub members: Vec<Member>,
}

/// A `ParsedValue` with its members as a sequence.
pub struct ParsedValueView {
    pub kind: JsonKind,
    pub members: Seq<MemberView>,
}

impl View for ParsedValue {
    type V = ParsedValueView;

    open spec fn view(&self) -> ParsedValueView {
        ParsedValueView { kind: self.kind, members: self.members@.map_values(|m: Member| m@) }
    }
}

/// Why a JSON value is not the envelope it should be.
#[derive(Clone, Copy, Debug, PartialEq, Eq, Structural)]
pub enum ValidationError {
    /// A request is an array: batches are not supported.
    BatchRequest,
    /// A response is an array.
    BatchResponse,
    /// The value is neither an object nor an array.
    NotAnObject,
    /// `jsonrpc` is not the string `2.0`.
    InvalidVersion,
    /// `id` is neither an integer nor a string.
    InvalidId,
    /// `id` is an integer that does not fit 64 signed bits.
    IdOutOfRange,
    /// `method` is not a string.
    InvalidMethod,
    /// `params` is neither an object nor an array.
    InvalidParams,
    /// There is no `jsonrpc` member.
    MissingVersion,
    /// A request has no `method` member.
    MissingMethod,
    /// A response has neither a `result` nor an `error` member.
    MissingResultOrError,
}

/// The two envelopes of JSON-RPC.
#[derive(Clone, Copy, Debug, PartialEq, Eq, Structural)]
pub enum Envelope {
    Request,
    Response,
}

/// The id that a member's value stands for, if it is of a kind that an id can have.
pub open spec fn id_of(value: MemberValueView) -> Option<RequestIdView> {
    match value {
        MemberValueView::Integer(n) => Some(RequestIdView::Number(n)),
        MemberValueView::String(s) => Some(RequestIdView::String(s)),
        _ => None,
    }
}

/// What is wrong with a value given for `id`, if anything.
pub open spec fn id_fault(value: MemberValueView) -> Option<ValidationError> {
    match value {
        MemberValueView::Integer(_) => None,
        MemberValueView::String(_) => None,
        MemberValueView::WideInteger => Some(ValidationError::IdOutOfRange),
        _ => Some(ValidationError::InvalidId),
    }
}

/// What is wrong with one member of an envelope, if anything. A member whose name the
/// envelope does not know has no fault.
pub open spec fn member_fault(envelope: Envelope, member: MemberView) -> Option<ValidationError> {
    if member.name == "jsonrpc"@ {
        if member.value == MemberValueView::String("2.0"@) {
            None
        } else {
            Some(ValidationError::InvalidVersion)
        }
    } else if member.name == "id"@ {
        id_fault(member.value)
    } else if envelope == Envelope::Request && member.name == "method"@ {
        if member.value is String {
            None
        } else {
            Some(ValidationError::InvalidMethod)
        }
    } else if envelope == Envelope::Request && member.name == "params"@ {
        if member.value is Object || member.value is Array {
            None
        } else {
            Some(ValidationError::InvalidParams)
        }
    } else {
        None
    }
}

/// The fault of the first member that has one.
pub open spec fn first_fault(envelope: Envelope, members: Seq<MemberView>) -> Option<
    ValidationError,
>
    decreases members.len(),
{
    if members.len() == 0 {
        None
    } else {
        match first_fault(envelope, members.drop_last()) {
            Some(fault) => Some(fault),
            None => member_fault(envelope, members.last()),
        }
    }
}

/// Whether one of the members has the given name.
pub open spec fn has_member(members: Seq<MemberView>, name: Seq<char>) -> bool {
    exists|i: int| 0 <= i < members.len() && (#[trigger] members[i]).name == name
}

/// The id given by the last member named `id`, if there is one.
pub open spec fn last_id(members: Seq<MemberView>) -> Option<RequestIdView>
    decreases members.len(),
{
    if members.len() == 0 {
        None
    } else if members.last().name == "id"@ {
        id_of(members.last().value)
    } else {
        last_id(members.drop_last())
    }
}

/// Whether the members that the envelope cannot do without are there, apart from
/// `jsonrpc`: the `method` of a request, the `result` or the `error` of a response.
pub open spec fn has_payload(envelope: Envelope, members: Seq<MemberView>) -> bool {
    match envelope {
        Envelope::Request => has_member(members, "method"@),
        Envelope::Response => has_member(members, "result"@) || has_member(members, "error"@),
    }
}

/// What validation makes of a value: the id of a valid envelope (`None` where it has
/// none, as in a notification), or the first thing that is wrong with it. The members
/// are judged in the order of the text, each of them, and a missing member counts
/// only when no member is at fault.
pub open spec fn envelope_outcome(envelope: Envelope, value: ParsedValueView) -> Result<
    Option<RequestIdView>,
    ValidationError,
> {
    if value.kind == JsonKind::Array {
        Err(
            match envelope {
                Envelope::Request => ValidationError::BatchRequest,
                Envelope::Response => ValidationError::BatchResponse,
            },
        )
    } else if value.kind != JsonKind::Object {
        Err(ValidationError::NotAnObject)
    } else if first_fault(envelope, value.members) is Some {
        Err(first_fault(envelope, value.members)->0)
    } else if !has_member(value.members, "jsonrpc"@) {
        Err(ValidationError::MissingVersion)
    } else if !has_payload(envelope, value.members) {
        Err(
            match envelope {
                Envelope::Request => ValidationError::MissingMethod,
                Envelope::Response => ValidationError::MissingResultOrError,
            },
        )
    } else {
        Ok(last_id(value.members))
    }
}

/// The outcome of validating a request.
pub open spec fn request_outcome(value: ParsedValueView) -> Result<
    Option<RequestIdView>,
    ValidationError,
> {
    envelope_outcome(Envelope::Request, value)
}

/// The outcome of validating a response.
pub open spec fn response_outcome(value: ParsedValueView) -> Result<
    Option<RequestIdView>,
    ValidationError,
> {
    envelope_outcome(Envelope::Response, value)
}

/// An optional id with its text as a sequence of characters.
pub open spec fn id_view(id: Option<RequestId>) -> Option<RequestIdView> {
    match id {
        Some(id) => Some(id@),
        None => None,
    }
}

/// The result of a validation with its text as a sequence of characters.
pub open spec fn outcome_view(result: Result<Option<RequestId>, ValidationError>) -> Result<
    Option<RequestIdView>,
    ValidationError,
> {
    match result {
        Ok(id) => Ok(id_view(id)),
        Err(fault) => Err(fault),
    }
}

impl ValidationError {
    /// The sentence that `message` returns.
    pub open spec fn message_text(self) -> Seq<char> {
        match self {
            ValidationError::BatchRequest => "batch requests are not supported"@,
            ValidationError::BatchResponse => "batch responses are not supported"@,
            ValidationError::NotAnObject => "expected a JSON object"@,
            ValidationError::InvalidVersion => "jsonrpc version must be '2.0'"@,
            ValidationError::InvalidId => "id must be an integer or string"@,
            ValidationError::IdOutOfRange => "id must fit a 64-bit signed integer"@,
            ValidationError::InvalidMethod => "method must be a string"@,
            ValidationError::InvalidParams => "params must be an object or array"@,
            ValidationError::MissingVersion => "jsonrpc field is required"@,
            ValidationError::MissingMethod => "method field is required"@,
            ValidationError::MissingResultOrError => "result or error field is required"@,
        }
    }

    /// Says what is wrong, in one sentence.
    pub fn message(&self) -> (text: String)
        ensures
            text@ == self.message_text(),
    {
        let text = match self {
            ValidationError::BatchRequest => "batch requests are not supported",
            ValidationError::BatchResponse => "batch responses are not supported",
            ValidationError::NotAnObject => "expected a JSON object",
            ValidationError::InvalidVersion => "jsonrpc version must be '2.0'",
            ValidationError::InvalidId => "id must be an integer or string",
            ValidationError::IdOutOfRange => "id must fit a 64-bit signed integer",
            ValidationError::InvalidMethod => "method must be a string",
            ValidationError::InvalidParams => "params must be an object or array",
            ValidationError::MissingVersion => "jsonrpc field is required",
            ValidationError::MissingMethod => "method field is required",
            ValidationError::MissingResultOrError => "result or error field is required",
        };
        text.to_owned()
    }
}

/// Judges one member by the rules of the envelope.
fn check_member(envelope: Envelope, member: &Member) -> (fault: Option<ValidationError>)
    ensures
        fault == member_fault(envelope, member@),
{
    let name = member.name.as_str();
    let is_request = match envelope {
        Envelope::Request => true,
        Envelope::Response => false,
    };
    if text_eq(name, "jsonrpc") {
        match &member.value {
            MemberValue::String(version) => {
                if text_eq(version.as_str(), "2.0") {
                    None
                } else {
                    Some(ValidationError::InvalidVersion)
                }
            },
            _ => Some(ValidationError::InvalidVersion),
        }
    } else if text_eq(name, "id") {
        match &member.value {
            MemberValue::Integer(_) => None,
            MemberValue::String(_) => None,
            MemberValue::WideInteger => Some(ValidationError::IdOutOfRange),
            _ => Some(ValidationError::InvalidId),
        }
    } else if is_request && text_eq(name, "method") {
        match &member.value {
            MemberValue::String(_) => None,
            _ => Some(ValidationError::InvalidMethod),
        }
    } else if is_request && text_eq(name, "params") {
        match &member.value {
            MemberValue::Object => None,
            MemberValue::Array => None,
            _ => Some(ValidationError::InvalidParams),
        }
    } else {
        None
    }
}

/// The id that a member's value stands for.
fn member_id(value: &MemberValue) -> (id: Option<RequestId>)
    ensures
        id_view(id) == id_of(value@),
{
    match value {
        MemberValue::Integer(n) => Some(RequestId::Number(*n)),
        MemberValue::String(s) => Some(RequestId::String(s.clone())),
        _ => None,
    }
}

/// Validates `value` as the given envelope.
pub fn validate_envelope(envelope: Envelope, value: &ParsedValue) -> (result: Result<
    Option<RequestId>,
    ValidationError,
>)
    ensures
        outcome_view(result) == envelope_outcome(envelope, value@),
{
    let is_request = match envelope {
        Envelope::Request => true,
        Envelope::Response => false,
    };
    match value.kind {
        JsonKind::Array => {
            return Err(
                if is_request {
                    ValidationError::BatchRequest
                } else {
                    ValidationError::BatchResponse
                },
            );
        },
        JsonKind::Object => {},
        _ => {
            return Err(ValidationError::NotAnObject);
        },
    }
    let ghost members = value@.members;
    let mut has_version = false;
    let mut has_method = false;
    let mut has_result_or_error = false;
    let mut id: Option<RequestId> = None;
    let mut i: usize = 0;
    while i < value.members.len()
        invariant
            i <= value.members.len(),
            value.kind == JsonKind::Object,
            members == value@.members,
            members.len() == value.members.len(),
            first_fault(envelope, members.take(i as int)) is None,
            has_version == has_member(members.take(i as int), "jsonrpc"@),
            has_method == has_member(members.take(i as int), "method"@),
            has_result_or_error == (has_member(members.take(i as int), "result"@) || has_member(
                members.take(i as int),
                "error"@,
            )),
            id_view(id) == last_id(members.take(i as int)),
        decreases value.members.len() - i,
    {
        let member = &value.members[i];
        let ghost before = members.take(i as int);
        let ghost after = members.take(i + 1);
        proof {
            assert(after.drop_last() == before);
            lemma_has_member_push(before, member@, "jsonrpc"@);
            lemma_has_member_push(before, member@, "method"@);
            lemma_has_member_push(before, member@, "result"@);
            lemma_has_member_push(before, member@, "error"@);
        }
        match check_member(envelope, member) {
            Some(fault) => {
                proof {
                    lemma_first_fault_prefix(envelope, members, i + 1);
                }
                return Err(fault);
            },
            None => {},
        }
        let name = member.name.as_str();
        if text_eq(name, "jsonrpc") {
            has_version = true;
        }
        if text_eq(name, "method") {
            has_method = true;
        }
        if text_eq(name, "result") || text_eq(name, "error") {
            has_result_or_error = true;
        }
        if text_eq(name, "id") {
            id = member_id(&member.value);
        }
        i += 1;
    }
    assert(members.take(i as int) == members);
    if !has_version {
        return Err(ValidationError::MissingVersion);
    }
    if is_request {
        if !has_method {
            return Err(ValidationError::MissingMethod);
        }
    } else {
        if !has_result_or_error {
            return Err(ValidationError::MissingResultOrError);
        }
    }
    Ok(id)
}

/// Validates a request: an object whose `jsonrpc` is the string `2.0`, whose `method`
/// is a string, whose `params`, if any, are an object or an array, and whose `id`, if
/// any, is an integer or a string. Returns the id; `None` marks a notification, to
/// which no reply is expected.
pub fn validate_json_rpc_request(value: &ParsedValue) -> (result: Result<
    Option<RequestId>,
    ValidationError,
>)
    ensures
        outcome_view(result) == request_outcome(value@),
{
    validate_envelope(Envelope::Request, value)
}

/// Validates a response: an object whose `jsonrpc` is the string `2.0`, which has a
/// `result` or an `error`, and whose `id`, if any, is an integer or a string.
pub fn validate_json_rpc_response(value: &ParsedValue) -> (result: Result<
    Option<RequestId>,
    ValidationError,
>)
    ensures
        outcome_view(result) == response_outcome(value@),
{
    validate_envelope(Envelope::Response, value)
}

/// A member behind others has a name if and only if one of them had it or it has it.
pub proof fn lemma_has_member_push(members: Seq<MemberView>, member: MemberView, name: Seq<char>)
    ensures
        has_member(members.push(member), name) == (has_member(members, name) || member.name
            == name),
{
    let longer = members.push(member);
    if has_member(members, name) {
        let i = choose|i: int| 0 <= i < members.len() && (#[trigger] members[i]).name == name;
        assert(longer[i].name == name);
    }
    if member.name == name {
        assert(longer[members.len() as int].name == name);
    }
    if has_member(longer, name) {
        let i = choose|i: int| 0 <= i < longer.len() && (#[trigger] longer[i]).name == name;
        if i < members.len() {
            assert(members[i].name == name);
        }
    }
}

/// A fault among the first `n` members is the first fault of them all.
pub proof fn lemma_first_fault_prefix(envelope: Envelope, members: Seq<MemberView>, n: int)
    requires
        0 <= n <= members.len(),
        first_fault(envelope, members.take(n)) is Some,
    ensures
        first_fault(envelope, members) == first_fault(envelope, members.take(n)),
    decreases members.len() - n,
{
    if n < members.len() {
        assert(members.take(n + 1).drop_last() == members.take(n));
        lemma_first_fault_prefix(envelope, members, n + 1);
    } else {
        assert(members.take(n) == members);
    }
}

/// No member is at fault if and only if none of them is.
pub proof fn lemma_first_fault_none(envelope: Envelope, members: Seq<MemberView>)
    ensures
        first_fault(envelope, members) is None <==> forall|i: int|
            0 <= i < members.len() ==> member_fault(envelope, #[trigger] members[i]) is None,
    decreases members.len(),
{
    if members.len() > 0 {
        let earlier = members.drop_last();
        lemma_first_fault_none(envelope, earlier);
        if first_fault(envelope, members) is None {
            assert forall|i: int| 0 <= i < members.len() implies member_fault(
                envelope,
                #[trigger] members[i],
            ) is None by {
                if i < earlier.len() {
                    assert(earlier[i] == members[i]);
                }
            }
        } else {
            if first_fault(envelope, earlier) is Some {
                let i = choose|i: int|
                    0 <= i < earlier.len() && member_fault(envelope, #[trigger] earlier[i]) is Some;
                assert(earlier[i] == members[i]);
            } else {
                assert(member_fault(envelope, members[members.len() - 1]) is Some);
            }
        }
    }
}

/// A value is a valid envelope if and only if it is an object, none of its members is
/// at fault, and the members that the envelope cannot do without are there. The
/// order of the members does not matter to this.
pub proof fn lemma_valid_envelope(envelope: Envelope, value: ParsedValueView)
    ensures
        envelope_outcome(envelope, value) is Ok <==> {
            &&& value.kind == JsonKind::Object
            &&& forall|i: int|
                0 <= i < value.members.len() ==> member_fault(
                    envelope,
                    #[trigger] value.members[i],
                ) is None
            &&& has_member(value.members, "jsonrpc"@)
            &&& has_payload(envelope, value.members)
        },
        envelope_outcome(envelope, value) is Ok ==> envelope_outcome(envelope, value) == Ok::<
            Option<RequestIdView>,
            ValidationError,
        >(last_id(value.members)),
{
    lemma_first_fault_none(envelope, value.members);
}

/// The members of a request as it is written out: the version, the method, then the
/// parameters and the id where there are any.
pub open spec fn written_request(
    method: Seq<char>,
    params: Option<MemberValueView>,
    id: Option<RequestIdView>,
) -> Seq<MemberView> {
    seq![
        MemberView { name: "jsonrpc"@, value: MemberValueView::String("2.0"@) },
        MemberView { name: "method"@, value: MemberValueView::String(method) },
    ] + match params {
        Some(params) => seq![MemberView { name: "params"@, value: params }],
        None => Seq::empty(),
    } + match id {
        Some(RequestIdView::Number(n)) => seq![
            MemberView { name: "id"@, value: MemberValueView::Integer(n) },
        ],
        Some(RequestIdView::String(s)) => seq![
            MemberView { name: "id"@, value: MemberValueView::String(s) },
        ],
        None => Seq::empty(),
    }
}

/// A request that is written out with a method, with parameters that are an array or
/// an object, and with an id is valid, and validation gives back that id.
pub proof fn lemma_written_request_is_valid(
    method: Seq<char>,
    params: Option<MemberValueView>,
    id: Option<RequestIdView>,
)
    requires
        params matches Some(value) ==> value is Array || value is Object,
    ensures
        request_outcome(
            ParsedValueView { kind: JsonKind::Object, members: written_request(method, params, id) },
        ) == Ok::<Option<RequestIdView>, ValidationError>(id),
{
    reveal_strlit("jsonrpc");
    reveal_strlit("method");
    reveal_strlit("params");
    reveal_strlit("id");
    reveal_strlit("2.0");
    let members = written_request(method, params, id);
    let value = ParsedValueView { kind: JsonKind::Object, members };
    assert("method"@[0] == 'm' && "params"@[0] == 'p');
    assert(members[0].name == "jsonrpc"@);
    assert(members[1].name == "method"@);
    assert forall|i: int| 0 <= i < members.len() implies member_fault(
        Envelope::Request,
        #[trigger] members[i],
    ) is None by {}
    lemma_valid_envelope(Envelope::Request, value);
    if id is None {
        reveal_with_fuel(last_id, 4);
    }
}

} // verus!
