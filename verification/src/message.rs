//! Requests and responses as texts: reading them, and writing the ones that the
//! library sends.

use crate::document::{parsed_value, read_value, root_kind, SyntaxError};
use crate::envelope::{
    envelope_outcome, id_view, validate_envelope, Envelope, RequestId, RequestIdView,
    ValidationError,
};
use crate::json::{
    document_text, json_quoted, json_rendering, json_syntax_error, kind_at, parse_document,
    quoted, rendered, JsonKind,
};
use crate::text::{decimal, integer_text, natural_text};
use vstd::prelude::*;
use vstd::string::*;

verus! {

/// Why a text is not the envelope it should be.
#[derive(Clone, Copy, Debug, PartialEq, Eq, Structural)]
pub enum EnvelopeError {
    /// The text is not one JSON value.
    Syntax(SyntaxError),
    /// The text is one JSON value, and that value is not the envelope.
    Invalid(ValidationError),
}

impl EnvelopeError {
    /// The sentence that `message` returns.
    pub open spec fn message_text(self) -> Seq<char> {
        match self {
            EnvelopeError::Syntax(error) => error.message_text(),
            EnvelopeError::Invalid(fault) => fault.message_text(),
        }
    }

    /// Says what is wrong with the text, in one sentence.
    pub fn message(&self) -> (text: String)
        ensures
            text@ == self.message_text(),
    {
        match self {
            EnvelopeError::Syntax(error) => error.message(),
            EnvelopeError::Invalid(fault) => fault.message(),
        }
    }
}

/// What reading `text` as an envelope gives: the id of a valid envelope, or why the
/// text is none. The syntax is judged first.
pub open spec fn recognized(envelope: Envelope, text: Seq<char>) -> Result<
    Option<RequestIdView>,
    EnvelopeError,
> {
    match json_syntax_error(text) {
        Some(position) => Err(EnvelopeError::Syntax(SyntaxError { position })),
        None => match envelope_outcome(envelope, parsed_value(text)) {
            Ok(id) => Ok(id),
            Err(fault) => Err(EnvelopeError::Invalid(fault)),
        },
    }
}

/// The indent of a rendering that is meant to be read.
pub const PRETTY_INDENT: usize = 2;

/// `text` written out again, for reading or on one line.
pub open spec fn rendering(text: Seq<char>, pretty: bool) -> Seq<char> {
    if pretty {
        json_rendering(text, PRETTY_INDENT, true)
    } else {
        json_rendering(text, 0, false)
    }
}

/// An id as JSON.
pub open spec fn id_json(id: RequestIdView) -> Seq<char> {
    match id {
        RequestIdView::Number(n) => decimal(n as int),
        RequestIdView::String(s) => json_quoted(s),
    }
}

/// The response that carries `result`, given as JSON, to the request with the given
/// id.
pub open spec fn response_text(id: RequestIdView, result: Seq<char>) -> Seq<char> {
    "{\"jsonrpc\":\"2.0\",\"id\":"@ + id_json(id) + ",\"result\":"@ + result + "}"@
}

/// The response that reports an error to a peer whose request has no id that could
/// be read.
pub open spec fn error_text(code: int, message: Seq<char>) -> Seq<char> {
    "{\"jsonrpc\":\"2.0\",\"id\":null,\"error\":{\"code\":"@ + decimal(code) + ",\"message\":"@
        + json_quoted(message) + "}}"@
}

/// The part of a request that gives its parameters, if it has any.
pub open spec fn params_part(params: Option<Seq<char>>) -> Seq<char> {
    match params {
        Some(params) => ",\"params\":"@ + json_rendering(params, 0, false),
        None => Seq::empty(),
    }
}

/// The part of a request that gives its id, if it has one.
pub open spec fn id_part(id: Option<u64>) -> Seq<char> {
    match id {
        Some(id) => ",\"id\":"@ + decimal(id as int),
        None => Seq::empty(),
    }
}

/// The request that calls `method`.
pub open spec fn request_text(method: Seq<char>, params: Option<Seq<char>>, id: Option<u64>) -> Seq<
    char,
> {
    "{\"jsonrpc\":\"2.0\",\"method\":"@ + json_quoted(method) + params_part(params) + id_part(id)
        + "}"@
}

/// A request that has been read and found valid.
#[derive(Debug)]
pub struct Request {
    json: nojson::RawJsonOwned,
    id: Option<RequestId>,
}

/// A response that has been read and found valid.
#[derive(Debug)]
pub struct Response {
    json: nojson::RawJsonOwned,
    id: Option<RequestId>,
}

/// Parameters that have been read and found to be an array or an object.
#[derive(Debug)]
pub struct Params {
    json: nojson::RawJsonOwned,
}

/// Why a text cannot be the parameters of a request.
#[derive(Clone, Copy, Debug, PartialEq, Eq, Structural)]
pub enum ParamsError {
    /// The text is not one JSON value.
    Syntax(SyntaxError),
    /// The value is neither an array nor an object.
    NotStructured,
}

/// Why `text` cannot be the parameters of a request, if it cannot.
pub open spec fn params_fault(text: Seq<char>) -> Option<ParamsError> {
    match json_syntax_error(text) {
        Some(position) => Some(ParamsError::Syntax(SyntaxError { position })),
        None => if root_kind(text) == JsonKind::Array || root_kind(text) == JsonKind::Object {
            None
        } else {
            Some(ParamsError::NotStructured)
        },
    }
}

impl Params {
    /// The text of the parameters.
    pub closed spec fn text(&self) -> Seq<char> {
        document_text(self.json)
    }

    /// Reads `text` as the parameters of a request: a JSON array or object.
    pub fn parse(text: &str) -> (result: Result<Params, ParamsError>)
        ensures
            match result {
                Ok(params) => params.text() == text@ && params_fault(text@) is None,
                Err(error) => params_fault(text@) == Some(error),
            },
    {
        let json = match parse_document(text) {
            Ok(json) => json,
            Err(position) => {
                return Err(ParamsError::Syntax(SyntaxError { position }));
            },
        };
        match kind_at(&json, 0) {
            Some(JsonKind::Array) => Ok(Params { json }),
            Some(JsonKind::Object) => Ok(Params { json }),
            _ => Err(ParamsError::NotStructured),
        }
    }
}

/// The text of parameters that may be missing.
pub open spec fn params_text(params: Option<&Params>) -> Option<Seq<char>> {
    match params {
        Some(params) => Some(params.text()),
        None => None,
    }
}

/// Writes the request that calls `method` with the given parameters. Without an id
/// it is a notification.
pub fn request_for(method: &str, params: Option<&Params>, id: Option<u64>) -> (request: String)
    ensures
        request@ == request_text(method@, params_text(params), id),
{
    let mut request = String::from_str("{\"jsonrpc\":\"2.0\",\"method\":");
    request.append(quoted(method).as_str());
    match params {
        Some(params) => {
            request.append(",\"params\":");
            request.append(rendered(&params.json, 0, false).as_str());
        },
        None => {},
    }
    assert(request@ =~= "{\"jsonrpc\":\"2.0\",\"method\":"@ + json_quoted(method@) + params_part(
        params_text(params),
    ));
    match id {
        Some(id) => {
            request.append(",\"id\":");
            request.append(natural_text(id).as_str());
        },
        None => {},
    }
    assert(request@ =~= "{\"jsonrpc\":\"2.0\",\"method\":"@ + json_quoted(method@) + params_part(
        params_text(params),
    ) + id_part(id));
    request.append("}");
    request
}

fn id_to_json(id: &RequestId) -> (json: String)
    ensures
        json@ == id_json(id@),
{
    match id {
        RequestId::Number(n) => integer_text(*n),
        RequestId::String(s) => quoted(s.as_str()),
    }
}

impl Request {
    /// The text of the request.
    pub closed spec fn text(&self) -> Seq<char> {
        document_text(self.json)
    }

    /// The id of the request, or `None` if it is a notification.
    pub closed spec fn spec_id(&self) -> Option<RequestIdView> {
        id_view(self.id)
    }

    /// Reads `text` as a request.
    pub fn parse(text: &str) -> (result: Result<Request, EnvelopeError>)
        ensures
            match result {
                Ok(request) => request.text() == text@ && recognized(Envelope::Request, text@)
                    == Ok::<Option<RequestIdView>, EnvelopeError>(request.spec_id()),
                Err(error) => recognized(Envelope::Request, text@) == Err::<
                    Option<RequestIdView>,
                    EnvelopeError,
                >(error),
            },
    {
        let json = match parse_document(text) {
            Ok(json) => json,
            Err(position) => {
                return Err(EnvelopeError::Syntax(SyntaxError { position }));
            },
        };
        let value = read_value(&json);
        match validate_envelope(Envelope::Request, &value) {
            Ok(id) => Ok(Request { json, id }),
            Err(fault) => Err(EnvelopeError::Invalid(fault)),
        }
    }

    /// The id of the request, or `None` if it is a notification.
    pub fn id(&self) -> (id: &Option<RequestId>)
        ensures
            id_view(*id) == self.spec_id(),
    {
        &self.id
    }

    /// Whether a response is expected: the request has an id.
    pub fn expects_response(&self) -> (expected: bool)
        ensures
            expected == self.spec_id().is_some(),
    {
        self.id.is_some()
    }

    /// The response that echoes the request: its result is the request itself, on
    /// one line. A notification gets none.
    pub fn echo_response(&self) -> (response: Option<String>)
        ensures
            match response {
                Some(response) => self.spec_id() is Some && response@ == response_text(
                    self.spec_id()->0,
                    rendering(self.text(), false),
                ),
                None => self.spec_id() is None,
            },
    {
        match &self.id {
            Some(id) => {
                let result = rendered(&self.json, 0, false);
                Some(response_for(id, result.as_str()))
            },
            None => None,
        }
    }
}

impl Response {
    /// The text of the response.
    pub closed spec fn text(&self) -> Seq<char> {
        document_text(self.json)
    }

    /// The id of the response, if it has one.
    pub closed spec fn spec_id(&self) -> Option<RequestIdView> {
        id_view(self.id)
    }

    /// Reads `text` as a response.
    pub fn parse(text: &str) -> (result: Result<Response, EnvelopeError>)
        ensures
            match result {
                Ok(response) => response.text() == text@ && recognized(Envelope::Response, text@)
                    == Ok::<Option<RequestIdView>, EnvelopeError>(response.spec_id()),
                Err(error) => recognized(Envelope::Response, text@) == Err::<
                    Option<RequestIdView>,
                    EnvelopeError,
                >(error),
            },
    {
        let json = match parse_document(text) {
            Ok(json) => json,
            Err(position) => {
                return Err(EnvelopeError::Syntax(SyntaxError { position }));
            },
        };
        let value = read_value(&json);
        match validate_envelope(Envelope::Response, &value) {
            Ok(id) => Ok(Response { json, id }),
            Err(fault) => Err(EnvelopeError::Invalid(fault)),
        }
    }

    /// The id of the response, if it has one.
    pub fn id(&self) -> (id: &Option<RequestId>)
        ensures
            id_view(*id) == self.spec_id(),
    {
        &self.id
    }

    /// The response written out again: for reading if `pretty`, and else on one
    /// line.
    pub fn render(&self, pretty: bool) -> (text: String)
        ensures
            text@ == rendering(self.text(), pretty),
    {
        if pretty {
            rendered(&self.json, PRETTY_INDENT, true)
        } else {
            rendered(&self.json, 0, false)
        }
    }
}

/// Writes the response that carries `result`, given as JSON, to the request with
/// the given id.
pub fn response_for(id: &RequestId, result: &str) -> (response: String)
    ensures
        response@ == response_text(id@, result@),
{
    let mut response = String::from_str("{\"jsonrpc\":\"2.0\",\"id\":");
    response.append(id_to_json(id).as_str());
    response.append(",\"result\":");
    response.append(result);
    response.append("}");
    response
}

/// Writes the response that reports an error with the given code and message. Its
/// id is null.
pub fn error_response(code: i32, message: &str) -> (response: String)
    ensures
        response@ == error_text(code as int, message@),
{
    let mut response = String::from_str("{\"jsonrpc\":\"2.0\",\"id\":null,\"error\":{\"code\":");
    response.append(integer_text(code as i64).as_str());
    response.append(",\"message\":");
    response.append(quoted(message).as_str());
    response.append("}}");
    response
}

} // verus!
