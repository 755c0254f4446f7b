use quake_net::addr::{Endpoint, Host};
use quake_net::connect::{
    ConnectStep, Handshake, Request, RequestConnect, Response, ResponseAccept, ResponseReject,
    CONNECT_PROTOCOL_VERSION, CONNECT_TIMEOUT_MS, GAME_NAME, MAX_CONNECT_ATTEMPTS,
};
use quake_net::error::{ClientError, IoError, IoErrorKind, NetError};

type Reply = Result<Option<(Response, Endpoint)>, NetError>;

fn server() -> Endpoint {
    Endpoint::v4(10, 0, 0, 1, 26000)
}

fn accept(port: i32) -> Response {
    Response::Accept(ResponseAccept { port })
}

fn reject(message: &str) -> Response {
    Response::Reject(ResponseReject { message: message.to_string() })
}

fn connect_request() -> Request {
    Request::Connect(RequestConnect { game_name: "QUAKE".to_string(), protocol_version: 3 })
}

/// Runs a handshake over the replies given and returns how many requests
/// were sent and how it ended, if it did.
fn run(replies: Vec<Reply>) -> (usize, Option<Result<Endpoint, ClientError>>) {
    let (mut handshake, first) = Handshake::start(server());
    assert_eq!(first, connect_request());
    let mut sent = 1;
    for reply in replies {
        assert_eq!(handshake.attempts(), sent);
        assert_eq!(handshake.target(), server());
        match handshake.on_reply(reply) {
            ConnectStep::Retry(next, request) => {
                assert_eq!(request, connect_request());
                sent += 1;
                handshake = next;
            }
            ConnectStep::Done(result) => return (sent, Some(result.map(|s| s.remote()))),
        }
    }
    (sent, None)
}

#[test]
fn constants_are_those_of_the_protocol() {
    assert_eq!(MAX_CONNECT_ATTEMPTS, 3);
    assert_eq!(CONNECT_TIMEOUT_MS, 2500);
    assert_eq!(GAME_NAME, "QUAKE");
    assert_eq!(CONNECT_PROTOCOL_VERSION, 3);
    assert_eq!(Request::connect(GAME_NAME, CONNECT_PROTOCOL_VERSION), connect_request());
}

#[test]
fn endpoint_is_host_and_port() {
    let e = Endpoint::v4(10, 0, 0, 1, 26000);
    assert_eq!(e, Endpoint { host: Host::V4(0x0A00_0001), port: 26000 });
    assert_eq!(e.with_port(1), Endpoint { host: Host::V4(0x0A00_0001), port: 1 });
    assert!(e.same_as(&server()));
    assert!(!e.same_as(&e.with_port(26001)));
    assert!(!e.same_as(&Endpoint::v4(10, 0, 0, 2, 26000)));
    assert_eq!(Endpoint::v4(255, 255, 255, 255, 0).host, Host::V4(u32::MAX));
}

#[test]
fn three_requests_are_sent_when_every_wait_runs_out() {
    let (sent, result) = run(vec![Ok(None), Ok(None), Ok(None)]);
    assert_eq!(sent, 3);
    let error = result.unwrap().unwrap_err();
    assert_eq!(error, ClientError::Unresponsive);
    assert!(error.is_recoverable());
    assert_eq!(error.message(), "No response");
}

#[test]
fn handshake_waits_on_after_one_and_two_timeouts() {
    assert_eq!(run(vec![]), (1, None));
    assert_eq!(run(vec![Ok(None)]), (2, None));
    assert_eq!(run(vec![Ok(None), Ok(None)]), (3, None));
}

#[test]
fn timeout_reported_as_an_error_of_the_endpoint_is_a_timeout() {
    let timed_out = || Err(NetError::Io(IoError::new(IoErrorKind::TimedOut, "timed out")));
    let would_block = || Err(NetError::Io(IoError::new(IoErrorKind::WouldBlock, "would block")));
    let (sent, result) = run(vec![timed_out(), would_block(), timed_out()]);
    assert_eq!(sent, 3);
    assert_eq!(result, Some(Err(ClientError::Unresponsive)));
}

#[test]
fn reject_fails_with_the_reason_of_the_server() {
    let (sent, result) = run(vec![Ok(Some((reject("Server is full"), server())))]);
    assert_eq!(sent, 1);
    let error = result.unwrap().unwrap_err();
    assert_eq!(error, ClientError::Rejected("Server is full".to_string()));
    assert!(error.is_recoverable());
    assert_eq!(error.message(), "Connection rejected: Server is full");
}

#[test]
fn accept_gives_a_session_on_the_port_granted() {
    let (mut handshake, _) = Handshake::start(server());
    handshake = match handshake.on_reply(Ok(None)) {
        ConnectStep::Retry(next, _) => next,
        ConnectStep::Done(_) => panic!("ended early"),
    };
    match handshake.on_reply(Ok(Some((accept(26001), server())))) {
        ConnectStep::Done(Ok(session)) => {
            assert_eq!(session.remote(), Endpoint::v4(10, 0, 0, 1, 26001));
            assert_ne!(session.remote(), server());
            assert!(session.can_send());
        }
        _ => panic!("no session"),
    }
}

#[test]
fn accept_with_a_port_out_of_range_fails_hard() {
    for port in [-1, 65536, i32::MAX, i32::MIN] {
        let (_, result) = run(vec![Ok(Some((accept(port), server())))]);
        let error = result.unwrap().unwrap_err();
        assert_eq!(error, ClientError::Other("Invalid port number".to_string()));
        assert!(!error.is_recoverable());
    }
    for port in [0, 65535] {
        let (_, result) = run(vec![Ok(Some((accept(port), server())))]);
        assert_eq!(result.unwrap().unwrap(), server().with_port(port as u16));
    }
}

#[test]
fn other_response_fails_hard() {
    let (sent, result) = run(vec![Ok(None), Ok(Some((Response::Other(0x83), server())))]);
    assert_eq!(sent, 2);
    let error = result.unwrap().unwrap_err();
    assert_eq!(error, ClientError::Other("Invalid connect response".to_string()));
    assert!(!error.is_recoverable());
}

#[test]
fn response_from_elsewhere_is_dropped() {
    let elsewhere = Endpoint::v4(10, 0, 0, 2, 26000);
    let other_port = server().with_port(26001);
    let (sent, result) = run(vec![
        Ok(Some((accept(26001), elsewhere))),
        Ok(Some((reject("no"), other_port))),
        Ok(Some((accept(27000), server()))),
    ]);
    assert_eq!(sent, 3);
    assert_eq!(result.unwrap().unwrap(), server().with_port(27000));

    let (sent, result) = run(vec![
        Ok(Some((accept(26001), elsewhere))),
        Ok(Some((accept(26001), elsewhere))),
        Ok(Some((accept(26001), elsewhere))),
    ]);
    assert_eq!(sent, 3);
    assert_eq!(result, Some(Err(ClientError::Unresponsive)));
}

#[test]
fn bytes_that_are_no_response_do_not_end_the_handshake() {
    let (sent, result) = run(vec![
        Err(NetError::InvalidData("noise".to_string())),
        Err(NetError::InvalidResponse(0x42)),
        Ok(Some((accept(26001), server()))),
    ]);
    assert_eq!(sent, 3);
    assert_eq!(result.unwrap().unwrap(), server().with_port(26001));

    let (sent, result) = run(vec![
        Err(NetError::Other("noise".to_string())),
        Err(NetError::InvalidRequest(1)),
        Err(NetError::InvalidData("noise".to_string())),
    ]);
    assert_eq!(sent, 3);
    assert_eq!(result, Some(Err(ClientError::Unresponsive)));
}

#[test]
fn failure_of_the_endpoint_ends_the_handshake_at_once() {
    let failure = IoError::new(IoErrorKind::Other, "network unreachable");
    let (sent, result) = run(vec![Ok(None), Err(NetError::Io(failure.clone())), Ok(None)]);
    assert_eq!(sent, 2);
    let error = result.unwrap().unwrap_err();
    assert_eq!(error, ClientError::Net(NetError::Io(failure)));
    assert!(!error.is_recoverable());
    assert_eq!(error.message(), "Network error: I/O error: network unreachable");
}
