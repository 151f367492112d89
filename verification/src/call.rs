//! The client: requests go out packed into datagrams, and as many responses are
//! awaited as there were calls among the requests.
//!
//! The client's decisions are made here; reading lines, sending and receiving
//! datagrams, and printing are left to the caller. A run has two phases. While
//! sending, each line of input is handed to `push_request`, and what comes back is
//! sent; `finish` hands out what is left. While receiving, entered only if a response
//! is awaited, each datagram is handed to `accept_datagram`, and the lines that come
//! back are printed, until nothing is awaited or the wait runs out.

use crate::envelope::Envelope;
use crate::lines::{contents, lemma_lines_bounded, lines, split_lines};
use crate::message::{recognized, rendering, EnvelopeError, Request, Response};
use crate::packer::{
    all_lines, appended, config_error, fits, lemma_packing_keeps_entries,
    lemma_payloads_within_capacity, lines_of, pack, payloads, ConfigError, DatagramBuffer,
    Packing, MAX_UDP_PAYLOAD,
};
use crate::text::{decimal_digits, decode, natural_text};
use vstd::prelude::*;
use vstd::string::*;
use vstd::utf8::{decode_utf8, encode_utf8, valid_utf8};

verus! {

/// Why a run of the client ends early.
#[derive(Clone, Copy, Debug, PartialEq, Eq, Structural)]
pub enum CallError {
    /// The buffer size is 0 or more than a datagram may carry.
    BufferSize(ConfigError),
    /// The time to wait for responses is 0.
    ZeroTimeout,
    /// A line of input is not a request.
    Request(EnvelopeError),
    /// A request is longer than the buffer size.
    RequestTooLarge,
    /// The network took fewer bytes than a datagram has.
    IncompleteSend,
    /// A datagram that was received is not UTF-8.
    InvalidEncoding,
    /// A line that was received is not a response.
    Response(EnvelopeError),
    /// The wait ran out before all responses were there.
    TimedOut { received: usize, expected: usize },
}

impl CallError {
    /// The sentence that `message` returns.
    pub open spec fn message_text(self) -> Seq<char> {
        match self {
            CallError::BufferSize(ConfigError::ZeroCapacity) => "buf-size must be greater than 0"@,
            CallError::BufferSize(ConfigError::CapacityTooLarge) => "buf-size must be <= 65507"@,
            CallError::ZeroTimeout => "timeout must be greater than 0"@,
            CallError::Request(error) => error.message_text(),
            CallError::RequestTooLarge => "request exceeds buffer capacity"@,
            CallError::IncompleteSend => "failed to send complete request packet"@,
            CallError::InvalidEncoding => "response is not valid UTF-8"@,
            CallError::Response(error) => error.message_text(),
            CallError::TimedOut { received, expected } =>
                "timed out waiting for responses (received "@ + decimal_digits(received as nat)
                    + " of "@ + decimal_digits(expected as nat) + ")"@,
        }
    }

    /// Says why the run ends, in one sentence.
    pub fn message(&self) -> (text: String)
        ensures
            text@ == self.message_text(),
    {
        match self {
            CallError::BufferSize(ConfigError::ZeroCapacity) => String::from_str(
                "buf-size must be greater than 0",
            ),
            CallError::BufferSize(ConfigError::CapacityTooLarge) => String::from_str(
                "buf-size must be <= 65507",
            ),
            CallError::ZeroTimeout => String::from_str("timeout must be greater than 0"),
            CallError::Request(error) => error.message(),
            CallError::RequestTooLarge => String::from_str("request exceeds buffer capacity"),
            CallError::IncompleteSend => String::from_str("failed to send complete request packet"),
            CallError::InvalidEncoding => String::from_str("response is not valid UTF-8"),
            CallError::Response(error) => error.message(),
            CallError::TimedOut { received, expected } => {
                let mut text = String::from_str("timed out waiting for responses (received ");
                text.append(natural_text(*received as u64).as_str());
                text.append(" of ");
                text.append(natural_text(*expected as u64).as_str());
                text.append(")");
                text
            },
        }
    }
}

/// What a received datagram amounts to.
#[derive(Debug, Clone, PartialEq, Eq)]
pub struct Accepted {
    /// The responses to print, in their order, each written out as the session
    /// was told to.
    pub lines: Vec<String>,
    /// What ends the run, if anything does. The lines in front of it still count.
    pub failure: Option<CallError>,
}

/// An `Accepted` with its lines as sequences of characters.
#[verifier::ext_equal]
pub struct AcceptedView {
    pub lines: Seq<Seq<char>>,
    pub failure: Option<CallError>,
}

impl View for Accepted {
    type V = AcceptedView;

    open spec fn view(&self) -> AcceptedView {
        AcceptedView { lines: self.lines@.map_values(|line: String| line@), failure: self.failure }
    }
}

/// What one received line adds, unless the run has failed already: a response is
/// written out, and anything else ends the run.
pub open spec fn accept_line(accepted: AcceptedView, line: Seq<u8>, pretty: bool) -> AcceptedView {
    if accepted.failure is Some {
        accepted
    } else if !valid_utf8(line) {
        AcceptedView { lines: accepted.lines, failure: Some(CallError::InvalidEncoding) }
    } else {
        match recognized(Envelope::Response, decode_utf8(line)) {
            Ok(_) => AcceptedView {
                lines: accepted.lines.push(rendering(decode_utf8(line), pretty)),
                failure: None,
            },
            Err(error) => AcceptedView {
                lines: accepted.lines,
                failure: Some(CallError::Response(error)),
            },
        }
    }
}

/// The lines taken in their order.
pub open spec fn accept_lines(lines: Seq<Seq<u8>>, pretty: bool) -> AcceptedView
    decreases lines.len(),
{
    if lines.len() == 0 {
        AcceptedView { lines: Seq::empty(), failure: None }
    } else {
        accept_line(accept_lines(lines.drop_last(), pretty), lines.last(), pretty)
    }
}

/// What a received datagram amounts to: one that is not UTF-8 ends the run, and any
/// other is taken line by line, empty lines left out.
pub open spec fn accepted(payload: Seq<u8>, pretty: bool) -> AcceptedView {
    if !valid_utf8(payload) {
        AcceptedView { lines: Seq::empty(), failure: Some(CallError::InvalidEncoding) }
    } else {
        accept_lines(split_lines(payload), pretty)
    }
}

/// What the sending has come to: the bytes that wait to be sent, and the number of
/// responses that the requests so far call for.
#[verifier::ext_equal]
pub struct Sending {
    pub buffered: Seq<u8>,
    pub pending: nat,
}

/// What one more line of input leads to, and what is to be sent on its account.
#[verifier::ext_equal]
pub struct Sent {
    pub sending: Sending,
    pub flushed: Option<Seq<u8>>,
}

/// Taking one line of input. A line that is no request ends the run, and so does a
/// request longer than a datagram may be; whether the line is a request is judged
/// first. Any other line goes into the buffer as it is, behind what waits there if
/// it fits, and else in its place, which is then to be sent. A request with an id
/// is a call: one more response is awaited for it, and for no other line.
pub open spec fn send_line(sending: Sending, line: Seq<char>, capacity: int) -> Result<
    Sent,
    CallError,
> {
    match recognized(Envelope::Request, line) {
        Err(error) => Err(CallError::Request(error)),
        Ok(id) => {
            let entry = encode_utf8(line);
            let pending = if id is Some {
                sending.pending + 1
            } else {
                sending.pending
            };
            if entry.len() > capacity {
                Err(CallError::RequestTooLarge)
            } else if fits(sending.buffered, entry, capacity) {
                Ok(
                    Sent {
                        sending: Sending { buffered: appended(sending.buffered, entry), pending },
                        flushed: None,
                    },
                )
            } else {
                Ok(
                    Sent {
                        sending: Sending { buffered: entry, pending },
                        flushed: Some(sending.buffered),
                    },
                )
            }
        },
    }
}

/// What a whole input leads to: the payloads that were sent along the way, and what
/// the sending has come to.
#[verifier::ext_equal]
pub struct Run {
    pub flushed: Seq<Seq<u8>>,
    pub sending: Sending,
}

/// Taking the lines of an input in their order, from an empty buffer, as long as
/// none of them ends the run.
pub open spec fn send_lines(lines: Seq<Seq<char>>, capacity: int) -> Result<Run, CallError>
    decreases lines.len(),
{
    if lines.len() == 0 {
        Ok(Run { flushed: Seq::empty(), sending: Sending { buffered: Seq::empty(), pending: 0 } })
    } else {
        match send_lines(lines.drop_last(), capacity) {
            Err(error) => Err(error),
            Ok(run) => match send_line(run.sending, lines.last(), capacity) {
                Err(error) => Err(error),
                Ok(sent) => Ok(
                    Run {
                        flushed: match sent.flushed {
                            Some(payload) => run.flushed.push(payload),
                            None => run.flushed,
                        },
                        sending: sent.sending,
                    },
                ),
            },
        }
    }
}

/// All the payloads that a run sends, with what is left in the buffer at the end as
/// the last of them.
pub open spec fn run_payloads(run: Run) -> Seq<Seq<u8>> {
    payloads(Packing { flushed: run.flushed, buffered: run.sending.buffered })
}

/// The number of calls among the lines: the requests that have an id.
pub open spec fn calls(lines: Seq<Seq<char>>) -> nat
    decreases lines.len(),
{
    if lines.len() == 0 {
        0
    } else if recognized(Envelope::Request, lines.last()) matches Ok(Some(_)) {
        calls(lines.drop_last()) + 1
    } else {
        calls(lines.drop_last())
    }
}

/// The lines as the bytes that are sent for them.
pub open spec fn encoded(lines: Seq<Seq<char>>) -> Seq<Seq<u8>> {
    lines.map_values(|line: Seq<char>| encode_utf8(line))
}

/// What is wrong with the settings of a run, if anything: the buffer size is judged
/// first.
pub open spec fn settings_error(buf_size: usize, timeout_ms: u64) -> Option<CallError> {
    match config_error(buf_size as int) {
        Some(error) => Some(CallError::BufferSize(error)),
        None => if timeout_ms == 0 {
            Some(CallError::ZeroTimeout)
        } else {
            None
        },
    }
}

/// One run of the client.
pub struct CallSession {
    buffer: DatagramBuffer,
    pretty: bool,
    pending: usize,
    received: usize,
}

impl CallSession {
    /// What the sending has come to.
    pub closed spec fn sending(&self) -> Sending {
        Sending { buffered: self.buffer@, pending: self.pending as nat }
    }

    /// The bytes that wait to be sent.
    pub open spec fn buffered(&self) -> Seq<u8> {
        self.sending().buffered
    }

    /// The most bytes that a datagram may have.
    pub closed spec fn spec_buf_size(&self) -> int {
        self.buffer.spec_capacity()
    }

    /// Whether responses are written out for reading.
    pub closed spec fn spec_pretty(&self) -> bool {
        self.pretty
    }

    /// The number of responses that the requests so far call for.
    pub open spec fn spec_pending_responses(&self) -> nat {
        self.sending().pending
    }

    /// The number of responses received so far.
    pub closed spec fn spec_received(&self) -> nat {
        self.received as nat
    }

    /// The buffer size is one that a UDP datagram allows, and what waits to be sent
    /// is within it.
    pub closed spec fn wf(&self) -> bool {
        self.buffer.wf()
    }

    /// What holds of every session that is well formed.
    pub proof fn lemma_wf(&self)
        requires
            self.wf(),
        ensures
            1 <= self.spec_buf_size() <= MAX_UDP_PAYLOAD,
            self.buffered().len() <= self.spec_buf_size(),
            self.spec_pending_responses() <= usize::MAX,
            self.spec_received() <= usize::MAX,
    {
    }

    /// Starts a run that sends datagrams of at most `buf_size` bytes, which must be
    /// at least 1 and at most `MAX_UDP_PAYLOAD`, and that waits `timeout_ms`
    /// milliseconds for responses, which must not be 0.
    pub fn new(buf_size: usize, timeout_ms: u64, pretty: bool) -> (result: Result<
        CallSession,
        CallError,
    >)
        ensures
            match result {
                Ok(session) => settings_error(buf_size, timeout_ms) is None && session.wf()
                    && session.spec_buf_size() == buf_size && session.spec_pretty() == pretty
                    && session.buffered() == Seq::<u8>::empty()
                    && session.spec_pending_responses() == 0 && session.spec_received() == 0,
                Err(error) => settings_error(buf_size, timeout_ms) == Some(error),
            },
    {
        let buffer = match DatagramBuffer::new(buf_size) {
            Ok(buffer) => buffer,
            Err(error) => {
                return Err(CallError::BufferSize(error));
            },
        };
        if timeout_ms == 0 {
            return Err(CallError::ZeroTimeout);
        }
        Ok(CallSession { buffer, pretty, pending: 0, received: 0 })
    }

    /// The most bytes that a datagram may have.
    pub fn buf_size(&self) -> (buf_size: usize)
        ensures
            buf_size == self.spec_buf_size(),
    {
        self.buffer.capacity()
    }

    /// The number of responses that the requests so far call for.
    pub fn pending_responses(&self) -> (pending: usize)
        ensures
            pending == self.spec_pending_responses(),
    {
        self.pending
    }

    /// The number of responses received so far.
    pub fn received(&self) -> (received: usize)
        ensures
            received == self.spec_received(),
    {
        self.received
    }

    /// Whether a response is still awaited. Where none ever is, the run is over
    /// once the requests are sent.
    pub fn awaits_response(&self) -> (awaited: bool)
        ensures
            awaited == (self.spec_received() < self.spec_pending_responses()),
    {
        self.received < self.pending
    }

    /// Takes one line of input as a request. The line must be a valid request and no
    /// longer than the buffer size. It goes into the buffer as it is; if it does not
    /// fit behind what waits there, that is handed out to be sent first. A request
    /// with an id is a call, and one more response is awaited for it.
    pub fn push_request(&mut self, line: &str) -> (result: Result<Option<Vec<u8>>, CallError>)
        requires
            old(self).wf(),
            old(self).spec_pending_responses() < usize::MAX,
        ensures
            final(self).wf(),
            final(self).spec_buf_size() == old(self).spec_buf_size(),
            final(self).spec_pretty() == old(self).spec_pretty(),
            final(self).spec_received() == old(self).spec_received(),
            match send_line(old(self).sending(), line@, old(self).spec_buf_size()) {
                Ok(sent) => final(self).sending() == sent.sending && match result {
                    Ok(Some(payload)) => sent.flushed == Some(payload@) && 0 < payload@.len()
                        <= old(self).spec_buf_size(),
                    Ok(None) => sent.flushed is None,
                    Err(_) => false,
                },
                Err(error) => final(self).sending() == old(self).sending() && result == Err::<
                    Option<Vec<u8>>,
                    CallError,
                >(error),
            },
    {
        let request = match Request::parse(line) {
            Ok(request) => request,
            Err(error) => {
                return Err(CallError::Request(error));
            },
        };
        let flushed = match self.buffer.push(line.as_bytes()) {
            Ok(flushed) => flushed,
            Err(_) => {
                return Err(CallError::RequestTooLarge);
            },
        };
        if request.expects_response() {
            self.pending = self.pending + 1;
        }
        Ok(flushed)
    }

    /// Ends the sending: hands out what still waits to be sent, if anything.
    pub fn finish(&mut self) -> (flushed: Option<Vec<u8>>)
        requires
            old(self).wf(),
        ensures
            final(self).wf(),
            final(self).spec_buf_size() == old(self).spec_buf_size(),
            final(self).spec_pretty() == old(self).spec_pretty(),
            final(self).spec_pending_responses() == old(self).spec_pending_responses(),
            final(self).spec_received() == old(self).spec_received(),
            final(self).buffered() == Seq::<u8>::empty(),
            match flushed {
                Some(payload) => payload@ == old(self).buffered() && 0 < payload@.len()
                    <= old(self).spec_buf_size(),
                None => old(self).buffered().len() == 0,
            },
    {
        if self.buffer.is_empty() {
            None
        } else {
            Some(self.buffer.flush())
        }
    }

    /// Takes a datagram that was received. Each of its lines that is a response
    /// counts as received and is written out. The first line that is none ends the
    /// run; the lines in front of it still count.
    pub fn accept_datagram(&mut self, payload: &[u8]) -> (result: Accepted)
        requires
            old(self).wf(),
            old(self).spec_received() + payload@.len() <= usize::MAX,
        ensures
            final(self).wf(),
            final(self).spec_buf_size() == old(self).spec_buf_size(),
            final(self).spec_pretty() == old(self).spec_pretty(),
            final(self).buffered() == old(self).buffered(),
            final(self).spec_pending_responses() == old(self).spec_pending_responses(),
            result@ == accepted(payload@, old(self).spec_pretty()),
            final(self).spec_received() == old(self).spec_received() + result@.lines.len(),
    {
        let mut result = Accepted { lines: Vec::new(), failure: None };
        if decode(payload).is_none() {
            result.failure = Some(CallError::InvalidEncoding);
            return result;
        }
        let found = lines(payload);
        let ghost all = contents(found@);
        let pretty = self.pretty;
        proof {
            lemma_lines_bounded(payload@);
        }
        let mut i: usize = 0;
        while i < found.len()
            invariant
                i <= found.len(),
                all == contents(found@),
                all == split_lines(payload@),
                valid_utf8(payload@),
                found@.len() <= payload@.len(),
                old(self).spec_received() + payload@.len() <= usize::MAX,
                self.wf(),
                self.spec_buf_size() == old(self).spec_buf_size(),
                self.spec_pretty() == old(self).spec_pretty(),
                self.buffered() == old(self).buffered(),
                self.spec_pending_responses() == old(self).spec_pending_responses(),
                pretty == self.spec_pretty(),
                result@ == accept_lines(all.take(i as int), pretty),
                result.failure is None,
                result@.lines.len() <= i,
                self.spec_received() == old(self).spec_received() + result@.lines.len(),
            decreases found.len() - i,
        {
            proof {
                assert(all.take(i + 1).drop_last() == all.take(i as int));
            }
            let text = match decode(found[i].as_slice()) {
                Some(text) => text,
                None => {
                    result.failure = Some(CallError::InvalidEncoding);
                    proof {
                        lemma_accept_failed(all, i + 1, pretty);
                    }
                    return result;
                },
            };
            match Response::parse(text) {
                Ok(response) => {
                    let line = response.render(pretty);
                    result.lines.push(line);
                    self.received = self.received + 1;
                },
                Err(error) => {
                    result.failure = Some(CallError::Response(error));
                    proof {
                        lemma_accept_failed(all, i + 1, pretty);
                    }
                    return result;
                },
            }
            i += 1;
        }
        assert(all.take(i as int) == all);
        result
    }

    /// The error of a run whose wait for responses has run out.
    pub fn timed_out(&self) -> (error: CallError)
        ensures
            error == (CallError::TimedOut {
                received: self.spec_received() as usize,
                expected: self.spec_pending_responses() as usize,
            }),
    {
        CallError::TimedOut { received: self.received, expected: self.pending }
    }
}

/// Judges what the network did with a datagram: it must have taken every byte.
pub fn check_sent(sent: usize, payload: &[u8]) -> (result: Result<(), CallError>)
    ensures
        result == if sent == payload@.len() {
            Ok::<(), CallError>(())
        } else {
            Err(CallError::IncompleteSend)
        },
{
    if sent == payload.len() {
        Ok(())
    } else {
        Err(CallError::IncompleteSend)
    }
}

/// Sending a whole input packs its lines as the packer packs entries, and awaits as
/// many responses as there are calls among the lines.
pub proof fn lemma_run_packs_requests(lines: Seq<Seq<char>>, capacity: int)
    requires
        send_lines(lines, capacity) is Ok,
    ensures
        pack(encoded(lines), capacity) == (Packing {
            flushed: send_lines(lines, capacity)->Ok_0.flushed,
            buffered: send_lines(lines, capacity)->Ok_0.sending.buffered,
        }),
        send_lines(lines, capacity)->Ok_0.sending.pending == calls(lines),
        forall|i: int| 0 <= i < lines.len() ==> encode_utf8(#[trigger] lines[i]).len() <= capacity,
    decreases lines.len(),
{
    if lines.len() > 0 {
        let earlier = lines.drop_last();
        lemma_run_packs_requests(earlier, capacity);
        assert(encoded(lines).drop_last() == encoded(earlier));
        assert forall|i: int| 0 <= i < lines.len() implies encode_utf8(#[trigger] lines[i]).len()
            <= capacity by {
            if i < earlier.len() {
                assert(lines[i] == earlier[i]);
            }
        }
    }
}

/// None of the payloads of a run, the last one included, is empty or longer than the
/// capacity.
pub proof fn lemma_run_within_capacity(lines: Seq<Seq<char>>, capacity: int)
    requires
        1 <= capacity,
        send_lines(lines, capacity) is Ok,
    ensures
        forall|k: int|
            0 <= k < run_payloads(send_lines(lines, capacity)->Ok_0).len() ==> 0 < (
            #[trigger] run_payloads(send_lines(lines, capacity)->Ok_0)[k]).len() <= capacity,
{
    lemma_run_packs_requests(lines, capacity);
    lemma_payloads_within_capacity(encoded(lines), capacity);
}

/// All the payloads of a run, the last one included, split at their separators give
/// back the lines of the input, each whole and in its place, provided that each line
/// has a character and none has a line feed in it.
pub proof fn lemma_run_keeps_requests(lines: Seq<Seq<char>>, capacity: int)
    requires
        send_lines(lines, capacity) is Ok,
        all_lines(encoded(lines)),
    ensures
        lines_of(run_payloads(send_lines(lines, capacity)->Ok_0)) == encoded(lines),
{
    lemma_run_packs_requests(lines, capacity);
    lemma_packing_keeps_entries(encoded(lines), capacity);
}

/// Once a line has ended the run, the lines behind it change nothing.
pub proof fn lemma_accept_failed(lines: Seq<Seq<u8>>, n: int, pretty: bool)
    requires
        0 <= n <= lines.len(),
        accept_lines(lines.take(n), pretty).failure is Some,
    ensures
        accept_lines(lines, pretty) == accept_lines(lines.take(n), pretty),
    decreases lines.len() - n,
{
    if n < lines.len() {
        assert(lines.take(n + 1).drop_last() == lines.take(n));
        lemma_accept_failed(lines, n + 1, pretty);
    } else {
        assert(lines.take(n) == lines);
    }
}

} // verus!
