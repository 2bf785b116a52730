use ferrugem::forward::advance;
use ferrugem::forward::conclude;
use ferrugem::forward::status_for;
use ferrugem::forward::Event;
use ferrugem::forward::Failure;
use ferrugem::forward::Outcome;
use ferrugem::forward::Phase;
use ferrugem::headers::Header;
use ferrugem::response::Response;

fn bare(status: u16) -> Response {
    Response { status, headers: Vec::new(), body: Vec::new() }
}

#[test]
fn unreachable_backend_is_answered_with_502() {
    assert_eq!(status_for(Failure::BackendUnreachable), Some(502));
    assert_eq!(conclude(Outcome::Failed(Failure::BackendUnreachable)), Some(bare(502)));
}

#[test]
fn timeout_is_answered_with_504() {
    assert_eq!(status_for(Failure::BackendTimeout), Some(504));
    assert_eq!(conclude(Outcome::Failed(Failure::BackendTimeout)), Some(bare(504)));
}

#[test]
fn protocol_error_is_answered_with_502() {
    assert_eq!(status_for(Failure::BackendProtocolError), Some(502));
    assert_eq!(conclude(Outcome::Failed(Failure::BackendProtocolError)), Some(bare(502)));
}

#[test]
fn client_that_is_gone_gets_nothing() {
    assert_eq!(status_for(Failure::ClientDisconnect), None);
    assert_eq!(conclude(Outcome::Failed(Failure::ClientDisconnect)), None);
}

#[test]
fn unreadable_bytes_are_answered_with_502() {
    assert_eq!(conclude(Outcome::Received(b"nonsense".to_vec())), Some(bare(502)));
    assert_eq!(conclude(Outcome::Received(Vec::new())), Some(bare(502)));
    assert_eq!(
        conclude(Outcome::Received(b"HTTP/1.1 200 OK\r\nBad Name: x\r\n\r\n".to_vec())),
        Some(bare(502))
    );
}

#[test]
fn readable_response_is_relayed_with_the_signature() {
    let raw = b"HTTP/1.1 201 Created\r\nLocation: /new\r\n\r\n{\"id\":1}".to_vec();
    assert_eq!(
        conclude(Outcome::Received(raw)),
        Some(Response {
            status: 201,
            headers: vec![Header::new(b"Location", b"/new"), Header::new(b"X-Powered-By", b"ferrugem")],
            body: b"{\"id\":1}".to_vec(),
        })
    );
}

#[test]
fn backend_error_status_is_relayed_unchanged() {
    let raw = b"HTTP/1.1 500 Internal Server Error\r\n\r\noops".to_vec();
    let reply = conclude(Outcome::Received(raw)).unwrap();
    assert_eq!(reply.status, 500);
    assert_eq!(reply.body, b"oops".to_vec());
}

#[test]
fn a_request_passes_through_its_phases() {
    let mut phase = Phase::Idle;
    for (event, expected) in [
        (Event::Select, Phase::BackendSelected),
        (Event::Translate, Phase::HeadersTranslated),
        (Event::Send, Phase::Sent),
        (Event::Respond, Phase::Streaming),
        (Event::Finish, Phase::Done),
    ] {
        phase = advance(phase, event).unwrap();
        assert_eq!(phase, expected);
    }
}

#[test]
fn a_failed_request_ends_too() {
    assert_eq!(advance(Phase::Sent, Event::Fail), Some(Phase::Failed));
    assert_eq!(advance(Phase::Failed, Event::Finish), Some(Phase::Done));
}

#[test]
fn events_out_of_turn_are_refused() {
    assert_eq!(advance(Phase::Idle, Event::Send), None);
    assert_eq!(advance(Phase::Idle, Event::Fail), None);
    assert_eq!(advance(Phase::BackendSelected, Event::Select), None);
    assert_eq!(advance(Phase::Streaming, Event::Fail), None);
    assert_eq!(advance(Phase::Streaming, Event::Respond), None);
    assert_eq!(advance(Phase::Failed, Event::Respond), None);
}

#[test]
fn nothing_follows_done() {
    for event in [Event::Select, Event::Translate, Event::Send, Event::Respond, Event::Fail, Event::Finish] {
        assert_eq!(advance(Phase::Done, event), None);
    }
}
