//! The echo server: every call gets a response whose result is the request itself.
//!
//! The server's decisions are made here; receiving and sending datagrams is left to
//! the caller. A datagram holds requests, one to a line. Each line is judged on its
//! own: a line that cannot be answered is reported to the peer at once, and the
//! responses to the others are packed into as few datagrams as the capacity allows.
//!
//! Only a request with an id is answered; a notification gets nothing back. A report
//! of an error is sent for what it is worth. A batch of responses must go out whole:
//! `check_sent` tells the caller when the network took only a part of it, which ends
//! the server as it ends the client.

use crate::envelope::Envelope;
use crate::lines::{contents, lines, split_lines};
use crate::message::{
    error_response, error_text, recognized, rendering, response_text, EnvelopeError, Request,
};
use crate::packer::{
    all_lines, appended, config_error, fits, lemma_packing_keeps_entries, lines_of, pack,
    payloads, ConfigError, DatagramBuffer, MAX_UDP_PAYLOAD,
};
use crate::text::decode;
use vstd::prelude::*;
use vstd::string::*;
use vstd::utf8::{decode_utf8, encode_utf8, valid_utf8};

verus! {

/// The errors that the server reports to a peer.
#[derive(Clone, Copy, Debug, PartialEq, Eq, Structural)]
pub enum RpcError {
    /// The bytes are not UTF-8, or the line is not JSON.
    ParseError,
    /// The line is JSON, and it is not a request.
    InvalidRequest,
    /// The response is longer than a datagram may be.
    InternalError,
}

impl RpcError {
    /// The error's code, as JSON-RPC 2.0 defines it.
    pub open spec fn spec_code(self) -> int {
        match self {
            RpcError::ParseError => -32700,
            RpcError::InvalidRequest => -32600,
            RpcError::InternalError => -32603,
        }
    }

    /// The error's message.
    pub open spec fn spec_message(self) -> Seq<char> {
        match self {
            RpcError::ParseError => "parse error"@,
            RpcError::InvalidRequest => "invalid request"@,
            RpcError::InternalError => "internal error"@,
        }
    }

    /// The bytes of the response that reports the error.
    pub open spec fn spec_response(self) -> Seq<u8> {
        encode_utf8(error_text(self.spec_code(), self.spec_message()))
    }

    /// The error's code, as JSON-RPC 2.0 defines it.
    pub fn code(self) -> (code: i32)
        ensures
            code == self.spec_code(),
    {
        match self {
            RpcError::ParseError => -32700,
            RpcError::InvalidRequest => -32600,
            RpcError::InternalError => -32603,
        }
    }

    /// The error's message.
    pub fn message(self) -> (message: &'static str)
        ensures
            message@ == self.spec_message(),
    {
        match self {
            RpcError::ParseError => "parse error",
            RpcError::InvalidRequest => "invalid request",
            RpcError::InternalError => "internal error",
        }
    }

    /// The response that reports the error. Its id is null.
    pub fn response(self) -> (response: Vec<u8>)
        ensures
            response@ == self.spec_response(),
    {
        error_response(self.code(), self.message()).as_str().as_bytes_vec()
    }
}

/// What the server makes of one line of a datagram.
#[derive(Debug, Clone, PartialEq, Eq)]
pub enum LineOutcome {
    /// The line is a notification: nothing is sent back.
    Silent,
    /// The line cannot be answered; the peer is told why.
    Refused(RpcError),
    /// The line is a call, and this is the response to it.
    Answered(Vec<u8>),
}

/// A `LineOutcome` with its response as a sequence of bytes.
pub enum LineOutcomeView {
    Silent,
    Refused(RpcError),
    Answered(Seq<u8>),
}

impl View for LineOutcome {
    type V = LineOutcomeView;

    open spec fn view(&self) -> LineOutcomeView {
        match self {
            LineOutcome::Silent => LineOutcomeView::Silent,
            LineOutcome::Refused(error) => LineOutcomeView::Refused(*error),
            LineOutcome::Answered(response) => LineOutcomeView::Answered(response@),
        }
    }
}

/// A datagram that the server sends to the peer.
#[derive(Debug, Clone, PartialEq, Eq)]
pub enum Reply {
    /// The report of an error. It goes out on its own, and whether it can be sent
    /// does not matter to the server.
    Error(Vec<u8>),
    /// Responses, one to a line. All of its bytes must be sent.
    Responses(Vec<u8>),
}

/// A `Reply` with its payload as a sequence of bytes.
pub enum ReplyView {
    Error(Seq<u8>),
    Responses(Seq<u8>),
}

impl View for Reply {
    type V = ReplyView;

    open spec fn view(&self) -> ReplyView {
        match self {
            Reply::Error(payload) => ReplyView::Error(payload@),
            Reply::Responses(payload) => ReplyView::Responses(payload@),
        }
    }
}

/// What each of the outcomes holds.
pub open spec fn outcome_views(outcomes: Seq<LineOutcome>) -> Seq<LineOutcomeView> {
    outcomes.map_values(|outcome: LineOutcome| outcome@)
}

/// What each of the replies holds.
pub open spec fn reply_views(replies: Seq<Reply>) -> Seq<ReplyView> {
    replies.map_values(|reply: Reply| reply@)
}

/// What the server makes of a line: bytes that are not UTF-8 and text that is not
/// JSON are parse errors, JSON that is not a request is an invalid request, a
/// notification is passed over, and a call is answered with itself as the result.
pub open spec fn line_outcome_of(line: Seq<u8>) -> LineOutcomeView {
    if !valid_utf8(line) {
        LineOutcomeView::Refused(RpcError::ParseError)
    } else {
        match recognized(Envelope::Request, decode_utf8(line)) {
            Err(EnvelopeError::Syntax(_)) => LineOutcomeView::Refused(RpcError::ParseError),
            Err(EnvelopeError::Invalid(_)) => LineOutcomeView::Refused(RpcError::InvalidRequest),
            Ok(None) => LineOutcomeView::Silent,
            Ok(Some(id)) => LineOutcomeView::Answered(
                encode_utf8(response_text(id, rendering(decode_utf8(line), false))),
            ),
        }
    }
}

/// The datagrams that have gone out, and the responses that wait in the buffer.
#[verifier::ext_equal]
pub struct Replying {
    pub sent: Seq<ReplyView>,
    pub buffered: Seq<u8>,
}

/// What one outcome adds. An error goes out at once and leaves the buffer alone, and
/// so does the error that stands in for a response longer than the capacity. Any
/// other response goes into the buffer, which is sent first if the response does not
/// fit behind what it holds.
pub open spec fn reply_step(state: Replying, outcome: LineOutcomeView, capacity: int) -> Replying {
    match outcome {
        LineOutcomeView::Silent => state,
        LineOutcomeView::Refused(error) => Replying {
            sent: state.sent.push(ReplyView::Error(error.spec_response())),
            buffered: state.buffered,
        },
        LineOutcomeView::Answered(response) => if response.len() > capacity {
            Replying {
                sent: state.sent.push(ReplyView::Error(RpcError::InternalError.spec_response())),
                buffered: state.buffered,
            }
        } else if fits(state.buffered, response, capacity) {
            Replying { sent: state.sent, buffered: appended(state.buffered, response) }
        } else {
            Replying {
                sent: state.sent.push(ReplyView::Responses(state.buffered)),
                buffered: response,
            }
        },
    }
}

/// The outcomes taken in their order, from an empty buffer.
pub open spec fn reply_all(outcomes: Seq<LineOutcomeView>, capacity: int) -> Replying
    decreases outcomes.len(),
{
    if outcomes.len() == 0 {
        Replying { sent: Seq::empty(), buffered: Seq::empty() }
    } else {
        reply_step(reply_all(outcomes.drop_last(), capacity), outcomes.last(), capacity)
    }
}

/// All that is sent for the outcomes: what went out along the way, and at the end
/// what is left in the buffer, if anything.
pub open spec fn replies_to(outcomes: Seq<LineOutcomeView>, capacity: int) -> Seq<ReplyView> {
    let state = reply_all(outcomes, capacity);
    if state.buffered.len() == 0 {
        state.sent
    } else {
        state.sent.push(ReplyView::Responses(state.buffered))
    }
}

/// All that is sent in reply to a datagram. An empty datagram is passed over. One
/// that is not UTF-8 gets a single parse error. Any other is taken line by line,
/// empty lines left out.
pub open spec fn datagram_replies(payload: Seq<u8>, capacity: int) -> Seq<ReplyView> {
    if payload.len() == 0 {
        Seq::empty()
    } else if !valid_utf8(payload) {
        seq![ReplyView::Error(RpcError::ParseError.spec_response())]
    } else {
        replies_to(
            split_lines(payload).map_values(|line: Seq<u8>| line_outcome_of(line)),
            capacity,
        )
    }
}

/// Whether every batch of responses among the replies has bytes, and no more of them
/// than the capacity.
pub open spec fn within_capacity(replies: Seq<ReplyView>, capacity: int) -> bool {
    forall|k: int|
        0 <= k < replies.len() ==> (#[trigger] replies[k] matches ReplyView::Responses(payload)
            ==> 0 < payload.len() <= capacity)
}

/// Judges one line of a datagram.
pub fn line_outcome(line: &[u8]) -> (outcome: LineOutcome)
    ensures
        outcome@ == line_outcome_of(line@),
{
    let text = match decode(line) {
        Some(text) => text,
        None => {
            return LineOutcome::Refused(RpcError::ParseError);
        },
    };
    match Request::parse(text) {
        Err(EnvelopeError::Syntax(_)) => LineOutcome::Refused(RpcError::ParseError),
        Err(EnvelopeError::Invalid(_)) => LineOutcome::Refused(RpcError::InvalidRequest),
        Ok(request) => match request.echo_response() {
            Some(response) => LineOutcome::Answered(response.as_str().as_bytes_vec()),
            None => LineOutcome::Silent,
        },
    }
}

/// An echo server's settings.
pub struct EchoServer {
    capacity: usize,
}

impl EchoServer {
    /// The most bytes that a reply may have.
    pub closed spec fn spec_capacity(&self) -> int {
        self.capacity as int
    }

    /// The capacity is one that a UDP datagram allows.
    pub open spec fn wf(&self) -> bool {
        1 <= self.spec_capacity() <= MAX_UDP_PAYLOAD
    }

    /// A server whose replies have at most `send_buf_size` bytes, which must be at
    /// least 1 and at most `MAX_UDP_PAYLOAD`.
    pub fn new(send_buf_size: usize) -> (result: Result<EchoServer, ConfigError>)
        ensures
            match result {
                Ok(server) => config_error(send_buf_size as int) is None && server.wf()
                    && server.spec_capacity() == send_buf_size,
                Err(error) => config_error(send_buf_size as int) == Some(error),
            },
    {
        if send_buf_size == 0 {
            Err(ConfigError::ZeroCapacity)
        } else if send_buf_size > MAX_UDP_PAYLOAD {
            Err(ConfigError::CapacityTooLarge)
        } else {
            Ok(EchoServer { capacity: send_buf_size })
        }
    }

    /// The most bytes that a reply may have.
    pub fn capacity(&self) -> (capacity: usize)
        ensures
            capacity == self.spec_capacity(),
    {
        self.capacity
    }

    /// Works out what is sent for the outcomes of a datagram's lines, in the order
    /// in which it is to be sent.
    pub fn replies(&self, outcomes: &Vec<LineOutcome>) -> (sent: Vec<Reply>)
        requires
            self.wf(),
        ensures
            reply_views(sent@) == replies_to(outcome_views(outcomes@), self.spec_capacity()),
            within_capacity(reply_views(sent@), self.spec_capacity()),
    {
        let capacity = self.capacity;
        let mut buffer = DatagramBuffer::with_capacity(capacity);
        let ghost views = outcome_views(outcomes@);
        let mut sent: Vec<Reply> = Vec::new();
        let mut i: usize = 0;
        while i < outcomes.len()
            invariant
                i <= outcomes.len(),
                views == outcome_views(outcomes@),
                buffer.wf(),
                buffer.spec_capacity() == capacity,
                reply_all(views.take(i as int), capacity as int) == (Replying {
                    sent: reply_views(sent@),
                    buffered: buffer@,
                }),
                within_capacity(reply_views(sent@), capacity as int),
            decreases outcomes.len() - i,
        {
            proof {
                assert(views.take(i + 1).drop_last() == views.take(i as int));
            }
            let ghost before = reply_views(sent@);
            match &outcomes[i] {
                LineOutcome::Silent => {},
                LineOutcome::Refused(error) => {
                    sent.push(Reply::Error(error.response()));
                    assert(reply_views(sent@) =~= before.push(
                        ReplyView::Error(error.spec_response()),
                    ));
                },
                LineOutcome::Answered(response) => {
                    match buffer.push(response.as_slice()) {
                        Err(_) => {
                            sent.push(Reply::Error(RpcError::InternalError.response()));
                            assert(reply_views(sent@) =~= before.push(
                                ReplyView::Error(RpcError::InternalError.spec_response()),
                            ));
                        },
                        Ok(None) => {},
                        Ok(Some(payload)) => {
                            let ghost flushed = payload@;
                            sent.push(Reply::Responses(payload));
                            assert(reply_views(sent@) =~= before.push(
                                ReplyView::Responses(flushed),
                            ));
                        },
                    }
                },
            }
            i += 1;
        }
        assert(views.take(i as int) == views);
        if !buffer.is_empty() {
            let ghost before = reply_views(sent@);
            let payload = buffer.flush();
            let ghost flushed = payload@;
            sent.push(Reply::Responses(payload));
            assert(reply_views(sent@) =~= before.push(ReplyView::Responses(flushed)));
        }
        sent
    }

    /// Works out the datagrams to send in reply to a datagram, in the order in which
    /// they are to be sent.
    pub fn handle_datagram(&self, payload: &[u8]) -> (sent: Vec<Reply>)
        requires
            self.wf(),
        ensures
            reply_views(sent@) == datagram_replies(payload@, self.spec_capacity()),
            within_capacity(reply_views(sent@), self.spec_capacity()),
    {
        if payload.len() == 0 {
            return Vec::new();
        }
        if decode(payload).is_none() {
            let mut sent: Vec<Reply> = Vec::new();
            sent.push(Reply::Error(RpcError::ParseError.response()));
            return sent;
        }
        let found = lines(payload);
        let mut outcomes: Vec<LineOutcome> = Vec::new();
        let mut i: usize = 0;
        while i < found.len()
            invariant
                i <= found.len(),
                outcomes@.len() == i,
                forall|j: int|
                    0 <= j < i ==> (#[trigger] outcomes@[j])@ == line_outcome_of(found@[j]@),
            decreases found.len() - i,
        {
            let outcome = line_outcome(found[i].as_slice());
            outcomes.push(outcome);
            i += 1;
        }
        assert(outcome_views(outcomes@) =~= contents(found@).map_values(
            |line: Seq<u8>| line_outcome_of(line),
        ));
        self.replies(&outcomes)
    }
}

/// The payloads of the batches of responses among the replies, in their order.
pub open spec fn batches(replies: Seq<ReplyView>) -> Seq<Seq<u8>>
    decreases replies.len(),
{
    if replies.len() == 0 {
        Seq::empty()
    } else {
        match replies.last() {
            ReplyView::Responses(payload) => batches(replies.drop_last()).push(payload),
            ReplyView::Error(_) => batches(replies.drop_last()),
        }
    }
}

/// The responses among the outcomes that are no longer than the capacity, in their
/// order.
pub open spec fn fitting_responses(outcomes: Seq<LineOutcomeView>, capacity: int) -> Seq<Seq<u8>>
    decreases outcomes.len(),
{
    if outcomes.len() == 0 {
        Seq::empty()
    } else {
        match outcomes.last() {
            LineOutcomeView::Answered(response) if response.len() <= capacity => fitting_responses(
                outcomes.drop_last(),
                capacity,
            ).push(response),
            _ => fitting_responses(outcomes.drop_last(), capacity),
        }
    }
}

/// The batches that the server sends are the payloads into which the packer packs
/// the responses that fit a reply. The errors that go out in between change nothing
/// about them.
pub proof fn lemma_replies_pack_responses(outcomes: Seq<LineOutcomeView>, capacity: int)
    ensures
        batches(reply_all(outcomes, capacity).sent) == pack(
            fitting_responses(outcomes, capacity),
            capacity,
        ).flushed,
        reply_all(outcomes, capacity).buffered == pack(
            fitting_responses(outcomes, capacity),
            capacity,
        ).buffered,
        batches(replies_to(outcomes, capacity)) == payloads(
            pack(fitting_responses(outcomes, capacity), capacity),
        ),
    decreases outcomes.len(),
{
    let state = reply_all(outcomes, capacity);
    let responses = fitting_responses(outcomes, capacity);
    if outcomes.len() > 0 {
        let earlier = outcomes.drop_last();
        let before = reply_all(earlier, capacity);
        lemma_replies_pack_responses(earlier, capacity);
        match outcomes.last() {
            LineOutcomeView::Silent => {},
            LineOutcomeView::Refused(error) => {
                assert(state.sent.drop_last() == before.sent);
            },
            LineOutcomeView::Answered(response) => {
                if response.len() > capacity {
                    assert(state.sent.drop_last() == before.sent);
                } else {
                    assert(responses.drop_last() == fitting_responses(earlier, capacity));
                }
            },
        }
    }
    if state.buffered.len() > 0 {
        assert(state.sent.push(ReplyView::Responses(state.buffered)).drop_last() == state.sent);
    }
}

/// Splitting the batches that the server sends at their separators gives back the
/// responses that fit a reply, each whole and in its place, provided that each of
/// them is a line.
pub proof fn lemma_replies_keep_responses(outcomes: Seq<LineOutcomeView>, capacity: int)
    requires
        all_lines(fitting_responses(outcomes, capacity)),
    ensures
        lines_of(batches(replies_to(outcomes, capacity))) == fitting_responses(outcomes, capacity),
{
    lemma_replies_pack_responses(outcomes, capacity);
    lemma_packing_keeps_entries(fitting_responses(outcomes, capacity), capacity);
}

/// A batch of responses of which the network took only a part.
#[derive(Clone, Copy, Debug, PartialEq, Eq, Structural)]
pub struct IncompleteSend;

impl IncompleteSend {
    /// The sentence that `message` returns.
    pub open spec fn message_text(self) -> Seq<char> {
        "failed to send complete response"@
    }

    /// Says what went wrong, in one sentence.
    pub fn message(&self) -> (text: String)
        ensures
            text@ == self.message_text(),
    {
        String::from_str("failed to send complete response")
    }
}

/// Judges what the network did with a batch of responses: it must have taken every
/// byte.
pub fn check_sent(sent: usize, payload: &[u8]) -> (result: Result<(), IncompleteSend>)
    ensures
        result == if sent == payload@.len() {
            Ok::<(), IncompleteSend>(())
        } else {
            Err(IncompleteSend)
        },
{
    if sent == payload.len() {
        Ok(())
    } else {
        Err(IncompleteSend)
    }
}

} // verus!
