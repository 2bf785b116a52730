//! The decisions of forwarding one request: the phases it passes through
//! and the reply that each outcome of the backend call leads to.

use vstd::prelude::*;
use crate::headers::fields;
use crate::headers::inbound;
use crate::headers::inbound_fields;
use crate::headers::Header;
use crate::response::parse_response;
use crate::response::parsed;
use crate::response::Response;

verus! {

/// Why a request got no response from its backend.
#[derive(Debug, Clone, Copy, PartialEq, Eq, Structural)]
pub enum Failure {
    /// Connection refused, name not resolved, or another transport error.
    BackendUnreachable,
    /// The connect or the overall time limit ran out.
    BackendTimeout,
    /// The backend answered with bytes that are no response.
    BackendProtocolError,
    /// The client went away before its response was complete.
    ClientDisconnect,
}

/// What became of the call to the backend.
#[derive(Debug, Clone, PartialEq, Eq)]
pub enum Outcome {
    /// The bytes that the backend answered with.
    Received(Vec<u8>),
    /// The call failed.
    Failed(Failure),
}

/// Where one request stands.
#[derive(Debug, Clone, Copy, PartialEq, Eq, Structural)]
pub enum Phase {
    Idle,
    BackendSelected,
    HeadersTranslated,
    Sent,
    Streaming,
    Failed,
    Done,
}

/// What happens to a request.
#[derive(Debug, Clone, Copy, PartialEq, Eq, Structural)]
pub enum Event {
    /// The pool handed out a backend.
    Select,
    /// The outbound headers were written.
    Translate,
    /// The outbound request was issued.
    Send,
    /// The backend's response began to arrive.
    Respond,
    /// The backend call failed.
    Fail,
    /// The reply was written out, or the client went away.
    Finish,
}

/// The status for a backend that cannot be reached or understood.
pub const BAD_GATEWAY: u16 = 502;

/// The status for a backend that does not answer in time.
pub const GATEWAY_TIMEOUT: u16 = 504;

/// The status that a failure is answered with; none where the client is
/// gone and nothing can be sent.
pub open spec fn failure_status(failure: Failure) -> Option<u16> {
    match failure {
        Failure::BackendUnreachable => Some(BAD_GATEWAY),
        Failure::BackendTimeout => Some(GATEWAY_TIMEOUT),
        Failure::BackendProtocolError => Some(BAD_GATEWAY),
        Failure::ClientDisconnect => None,
    }
}

/// The reply that a status alone makes: no headers, no body.
pub open spec fn bare_reply(status: u16) -> (u16, Seq<(Seq<u8>, Seq<u8>)>, Seq<u8>) {
    (status, Seq::empty(), Seq::empty())
}

/// The reply that an outcome leads to: a readable response is relayed with
/// its status and body unchanged and its headers translated; unreadable
/// bytes and failures are answered with a bare status; a client that is
/// gone gets nothing.
pub open spec fn reply_for(outcome: Outcome) -> Option<(u16, Seq<(Seq<u8>, Seq<u8>)>, Seq<u8>)> {
    match outcome {
        Outcome::Received(raw) => match parsed(raw@) {
            Ok(p) => Some((p.0, inbound_fields(p.1), p.2)),
            Err(_) => Some(bare_reply(BAD_GATEWAY)),
        },
        Outcome::Failed(failure) => match failure_status(failure) {
            Some(status) => Some(bare_reply(status)),
            None => None,
        },
    }
}

/// The phase that follows `phase` on `event`; none where the event cannot
/// happen in that phase.
pub open spec fn next_phase(phase: Phase, event: Event) -> Option<Phase> {
    match (phase, event) {
        (Phase::Idle, Event::Select) => Some(Phase::BackendSelected),
        (Phase::BackendSelected, Event::Translate) => Some(Phase::HeadersTranslated),
        (Phase::HeadersTranslated, Event::Send) => Some(Phase::Sent),
        (Phase::Sent, Event::Respond) => Some(Phase::Streaming),
        (Phase::Sent, Event::Fail) => Some(Phase::Failed),
        (Phase::Streaming, Event::Finish) => Some(Phase::Done),
        (Phase::Failed, Event::Finish) => Some(Phase::Done),
        _ => None,
    }
}

/// How far a phase is from the start.
pub open spec fn rank(phase: Phase) -> nat {
    match phase {
        Phase::Idle => 0,
        Phase::BackendSelected => 1,
        Phase::HeadersTranslated => 2,
        Phase::Sent => 3,
        Phase::Streaming => 4,
        Phase::Failed => 4,
        Phase::Done => 5,
    }
}

/// The status that answers a failure.
pub fn status_for(failure: Failure) -> (status: Option<u16>)
    ensures
        status == failure_status(failure),
{
    match failure {
        Failure::BackendUnreachable => Some(BAD_GATEWAY),
        Failure::BackendTimeout => Some(GATEWAY_TIMEOUT),
        Failure::BackendProtocolError => Some(BAD_GATEWAY),
        Failure::ClientDisconnect => None,
    }
}

/// Moves a request on by one event.
pub fn advance(phase: Phase, event: Event) -> (next: Option<Phase>)
    ensures
        next == next_phase(phase, event),
{
    match (phase, event) {
        (Phase::Idle, Event::Select) => Some(Phase::BackendSelected),
        (Phase::BackendSelected, Event::Translate) => Some(Phase::HeadersTranslated),
        (Phase::HeadersTranslated, Event::Send) => Some(Phase::Sent),
        (Phase::Sent, Event::Respond) => Some(Phase::Streaming),
        (Phase::Sent, Event::Fail) => Some(Phase::Failed),
        (Phase::Streaming, Event::Finish) => Some(Phase::Done),
        (Phase::Failed, Event::Finish) => Some(Phase::Done),
        _ => None,
    }
}

/// A reply of a status alone.
fn bare(status: u16) -> (reply: Response)
    ensures
        reply@ == bare_reply(status),
{
    let headers: Vec<Header> = Vec::new();
    assert(fields(headers@) =~= Seq::empty());
    Response { status, headers, body: Vec::new() }
}

/// Turns the outcome of the backend call into the reply for the client.
/// Never fails: every outcome but a client that is gone has its reply.
pub fn conclude(outcome: Outcome) -> (reply: Option<Response>)
    ensures
        match reply_for(outcome) {
            Some(expected) => reply matches Some(r) && r@ == expected,
            None => reply is None,
        },
{
    match outcome {
        Outcome::Received(raw) => match parse_response(raw.as_slice()) {
            Ok(response) => {
                let headers: Vec<Header> = inbound(&response.headers);
                Some(Response { status: response.status, headers, body: response.body })
            },
            Err(_) => Some(bare(BAD_GATEWAY)),
        },
        Outcome::Failed(failure) => match status_for(failure) {
            Some(status) => Some(bare(status)),
            None => None,
        },
    }
}

/// Law of progress: every step moves a request strictly forward, so no
/// phase is entered twice.
pub proof fn lemma_no_phase_revisited(phase: Phase, event: Event)
    requires
        next_phase(phase, event) is Some,
    ensures
        rank(next_phase(phase, event).unwrap()) > rank(phase),
{
}

/// Law of the end: nothing follows `Done`, and `Streaming` and `Failed`
/// lead nowhere but to `Done`.
pub proof fn lemma_terminal_phases(event: Event)
    ensures
        next_phase(Phase::Done, event) is None,
        next_phase(Phase::Streaming, event) is Some ==> next_phase(Phase::Streaming, event) == Some(
            Phase::Done,
        ),
        next_phase(Phase::Failed, event) is Some ==> next_phase(Phase::Failed, event) == Some(
            Phase::Done,
        ),
{
}

/// Law of failure mapping: a reply made for a failed call has status 502
/// or 504 and neither headers nor body.
pub proof fn lemma_failure_reply(failure: Failure)
    ensures
        match reply_for(Outcome::Failed(failure)) {
            Some(reply) => (reply.0 == 502 || reply.0 == 504) && reply.1.len() == 0 && reply.2.len()
                == 0,
            None => failure == Failure::ClientDisconnect,
        },
{
}

/// Law of relay: a readable response reaches the client with the backend's
/// status and with its body byte for byte.
pub proof fn lemma_relay_keeps_status_and_body(raw: Vec<u8>)
    requires
        parsed(raw@) is Ok,
    ensures
        reply_for(Outcome::Received(raw)) matches Some(reply) && reply.0 == parsed(
            raw@,
        ).unwrap().0 && reply.2 == parsed(raw@).unwrap().2,
{
}

} // verus!
