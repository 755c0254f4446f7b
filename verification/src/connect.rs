//! The connection handshake: a request is sent up to three times, and the
//! first reply that comes from the server itself decides.
//!
//! The handshake touches no endpoint. Its owner sends each request that it
//! hands out, waits for a reply for up to [`CONNECT_TIMEOUT_MS`] and tells it
//! what came back.

use crate::addr::Endpoint;
use crate::error::{ClientError, ClientFault, NetError, NetFault};
use crate::qsocket::{QSocket, QState};
use vstd::prelude::*;

verus! {

/// A request is sent at most this many times.
pub const MAX_CONNECT_ATTEMPTS: usize = 3;

/// The wait for a reply to one request, in milliseconds.
pub const CONNECT_TIMEOUT_MS: u64 = 2500;

/// The version of the handshake that a request names.
pub const CONNECT_PROTOCOL_VERSION: u8 = 3;

/// The name of the game that a request names.
pub const GAME_NAME: &'static str = "QUAKE";

/// What a request to connect carries.
#[derive(Clone, Debug, PartialEq, Eq)]
pub struct RequestConnect {
    pub game_name: String,
    pub protocol_version: u8,
}

/// A request to a server outside any session.
#[derive(Clone, Debug, PartialEq, Eq)]
pub enum Request {
    /// Asks for a session.
    Connect(RequestConnect),
}

/// The value of a [`Request`].
pub enum RequestView {
    Connect { game_name: Seq<char>, protocol_version: u8 },
}

impl View for Request {
    type V = RequestView;

    open spec fn view(&self) -> RequestView {
        match self {
            Request::Connect(c) => RequestView::Connect {
                game_name: c.game_name@,
                protocol_version: c.protocol_version,
            },
        }
    }
}

impl Request {
    /// A request for a session.
    pub fn connect(game_name: &str, protocol_version: u8) -> (r: Request)
        ensures
            r@ == (RequestView::Connect { game_name: game_name@, protocol_version }),
    {
        Request::Connect(RequestConnect { game_name: game_name.to_owned(), protocol_version })
    }
}

/// The request that the handshake sends.
pub open spec fn connect_request() -> RequestView {
    RequestView::Connect { game_name: GAME_NAME@, protocol_version: CONNECT_PROTOCOL_VERSION }
}

/// The server grants a session on the port it names.
#[derive(Clone, Copy, Debug, PartialEq, Eq, Structural)]
pub struct ResponseAccept {
    pub port: i32,
}

/// The server declines and says why.
#[derive(Clone, Debug, PartialEq, Eq)]
pub struct ResponseReject {
    pub message: String,
}

/// A response of a server outside any session.
#[derive(Clone, Debug, PartialEq, Eq)]
pub enum Response {
    Accept(ResponseAccept),
    Reject(ResponseReject),
    /// Any other response, known by its code alone.
    Other(u8),
}

/// The value of a [`Response`].
pub enum ResponseView {
    Accept { port: i32 },
    Reject { message: Seq<char> },
    Other(u8),
}

impl View for Response {
    type V = ResponseView;

    open spec fn view(&self) -> ResponseView {
        match self {
            Response::Accept(a) => ResponseView::Accept { port: a.port },
            Response::Reject(r) => ResponseView::Reject { message: r.message@ },
            Response::Other(code) => ResponseView::Other(*code),
        }
    }
}

/// What the wait for a reply gave: nothing in time, a response and where it
/// came from, or an error.
pub enum ReplyView {
    Nothing,
    From(ResponseView, Endpoint),
    Failed(NetFault),
}

/// The value of what the wait for a reply gave.
pub open spec fn reply_view(reply: Result<Option<(Response, Endpoint)>, NetError>) -> ReplyView {
    match reply {
        Ok(None) => ReplyView::Nothing,
        Ok(Some((response, from))) => ReplyView::From(response@, from),
        Err(e) => ReplyView::Failed(e@),
    }
}

impl ReplyView {
    /// The reply ends the handshake with a failure of the endpoint: it is an
    /// error, not one of content and not one that only says that the wait ran
    /// out.
    pub open spec fn is_fatal(self) -> bool {
        self matches ReplyView::Failed(e) && e matches NetFault::Io(io) && !io.is_timeout()
    }

    /// The reply is a response from `target` itself.
    pub open spec fn answers(self, target: Endpoint) -> bool {
        self matches ReplyView::From(_, from) && from == target
    }
}

/// How the handshake ends on the response of the server: with the endpoint of
/// the session, which is the server's host and the port that was granted, or
/// with an error.
pub open spec fn conclude(target: Endpoint, response: ResponseView) -> Result<
    Endpoint,
    ClientFault,
> {
    match response {
        ResponseView::Accept { port } => {
            if 0 <= port <= 65535 {
                Ok(Endpoint { host: target.host, port: port as u16 })
            } else {
                Err(ClientFault::Other("Invalid port number"@))
            }
        },
        ResponseView::Reject { message } => Err(ClientFault::Rejected(message)),
        ResponseView::Other(_) => Err(ClientFault::Other("Invalid connect response"@)),
    }
}

/// The value of a [`Handshake`]: the server and how many requests have left.
pub struct HandshakeView {
    pub target: Endpoint,
    pub attempts: nat,
}

/// The value of a [`ConnectStep`].
pub enum StepView {
    /// The request is to be sent again.
    Retry(HandshakeView, RequestView),
    /// The handshake is over.
    Done(Result<QState, ClientFault>),
}

impl HandshakeView {
    /// A handshake whose first request has left.
    pub open spec fn started(target: Endpoint) -> HandshakeView {
        HandshakeView { target, attempts: 1 }
    }

    /// What follows on a reply. A response from the server ends the
    /// handshake, and so does a failure of the endpoint; anything else (no
    /// reply in time, bytes that are no response, a response from elsewhere)
    /// makes the request leave again, unless it has left three times.
    pub open spec fn step(self, reply: ReplyView) -> StepView {
        if reply.answers(self.target) {
            match conclude(self.target, reply->From_0) {
                Ok(remote) => StepView::Done(Ok(QState::fresh(remote))),
                Err(fault) => StepView::Done(Err(fault)),
            }
        } else if reply.is_fatal() {
            StepView::Done(Err(ClientFault::Net(reply->Failed_0)))
        } else if self.attempts < MAX_CONNECT_ATTEMPTS {
            StepView::Retry(
                HandshakeView { target: self.target, attempts: self.attempts + 1 },
                connect_request(),
            )
        } else {
            StepView::Done(Err(ClientFault::Unresponsive))
        }
    }
}

/// A handshake that has come to its end, or has not.
pub enum RunView {
    /// Replies are still waited for.
    Waiting(HandshakeView),
    /// The handshake ended after `sent` requests.
    Ended { sent: nat, result: Result<QState, ClientFault> },
}

/// Where a handshake stands after the replies given, in their order. Replies
/// after its end are not looked at.
pub open spec fn run(h: HandshakeView, replies: Seq<ReplyView>) -> RunView
    decreases replies.len(),
{
    if replies.len() == 0 {
        RunView::Waiting(h)
    } else {
        match h.step(replies[0]) {
            StepView::Retry(next, _) => run(next, replies.skip(1)),
            StepView::Done(result) => RunView::Ended { sent: h.attempts, result },
        }
    }
}

/// A handshake under way.
#[derive(Debug)]
pub struct Handshake {
    target: Endpoint,
    attempts: usize,
}

impl View for Handshake {
    type V = HandshakeView;

    closed spec fn view(&self) -> HandshakeView {
        HandshakeView { target: self.target, attempts: self.attempts as nat }
    }
}

/// What the owner of a handshake does next.
#[derive(Debug)]
pub enum ConnectStep {
    /// Send the request to the server and wait for a reply once more.
    Retry(Handshake, Request),
    /// The handshake is over: there is a session, or an error.
    Done(Result<QSocket, ClientError>),
}

impl View for ConnectStep {
    type V = StepView;

    open spec fn view(&self) -> StepView {
        match self {
            ConnectStep::Retry(h, request) => StepView::Retry(h@, request@),
            ConnectStep::Done(Ok(session)) => StepView::Done(Ok(session@)),
            ConnectStep::Done(Err(e)) => StepView::Done(Err(e@)),
        }
    }
}

impl Handshake {
    #[verifier::type_invariant]
    spec fn inv(self) -> bool {
        1 <= self.attempts <= MAX_CONNECT_ATTEMPTS
    }

    /// Starts a handshake with the server at `target` and hands out the
    /// request to send to it.
    pub fn start(target: Endpoint) -> (r: (Handshake, Request))
        ensures
            r.0@ == HandshakeView::started(target),
            r.1@ == connect_request(),
    {
        (
            Handshake { target, attempts: 1 },
            Request::connect(GAME_NAME, CONNECT_PROTOCOL_VERSION),
        )
    }

    /// The server that the handshake is with.
    pub fn target(&self) -> (r: Endpoint)
        ensures
            r == self@.target,
    {
        self.target
    }

    /// Number of requests that have left, from one to three.
    pub fn attempts(&self) -> (r: usize)
        ensures
            r == self@.attempts,
            1 <= r <= MAX_CONNECT_ATTEMPTS,
    {
        proof {
            use_type_invariant(self);
        }
        self.attempts
    }

    /// Ends the handshake on the response of the server.
    fn finish(target: Endpoint, response: Response) -> (r: Result<QSocket, ClientError>)
        ensures
            match conclude(target, response@) {
                Ok(remote) => r matches Ok(session) && session@ == QState::fresh(remote),
                Err(fault) => r matches Err(e) && e@ == fault,
            },
    {
        match response {
            Response::Accept(accept) => {
                if accept.port < 0 || accept.port > 65535 {
                    Err(ClientError::with_msg("Invalid port number"))
                } else {
                    Ok(QSocket::new(target.with_port(accept.port as u16)))
                }
            },
            Response::Reject(reject) => Err(ClientError::Rejected(reject.message)),
            Response::Other(_) => Err(ClientError::with_msg("Invalid connect response")),
        }
    }

    /// Tells the handshake what the wait for a reply gave, and returns what
    /// to do next.
    pub fn on_reply(self, reply: Result<Option<(Response, Endpoint)>, NetError>) -> (r:
        ConnectStep)
        ensures
            r@ == self@.step(reply_view(reply)),
    {
        proof {
            use_type_invariant(&self);
        }
        match reply {
            Ok(Some((response, from))) => {
                if from.same_as(&self.target) {
                    return ConnectStep::Done(Handshake::finish(self.target, response));
                }
            },
            Ok(None) => {},
            Err(e) => {
                match e {
                    NetError::Io(io) => {
                        if !io.is_timeout() {
                            return ConnectStep::Done(Err(ClientError::Net(NetError::Io(io))));
                        }
                    },
                    _ => {},
                }
            },
        }
        if self.attempts < MAX_CONNECT_ATTEMPTS {
            ConnectStep::Retry(
                Handshake { target: self.target, attempts: self.attempts + 1 },
                Request::connect(GAME_NAME, CONNECT_PROTOCOL_VERSION),
            )
        } else {
            ConnectStep::Done(Err(ClientError::Unresponsive))
        }
    }
}

/// A handshake never sends more than three requests, and never fewer than
/// one.
pub proof fn lemma_attempts_bounded(h: HandshakeView, replies: Seq<ReplyView>)
    requires
        1 <= h.attempts <= MAX_CONNECT_ATTEMPTS,
    ensures
        match run(h, replies) {
            RunView::Waiting(now) => h.attempts <= now.attempts <= MAX_CONNECT_ATTEMPTS,
            RunView::Ended { sent, .. } => h.attempts <= sent <= MAX_CONNECT_ATTEMPTS,
        },
    decreases replies.len(),
{
    if replies.len() > 0 {
        match h.step(replies[0]) {
            StepView::Retry(next, _) => {
                lemma_attempts_bounded(next, replies.skip(1));
            },
            StepView::Done(_) => {},
        }
    }
}

/// A handshake is over once as many replies have come as requests were
/// still to leave: after three replies at the latest.
pub proof fn lemma_ends_in_time(h: HandshakeView, replies: Seq<ReplyView>)
    requires
        1 <= h.attempts <= MAX_CONNECT_ATTEMPTS,
        replies.len() > MAX_CONNECT_ATTEMPTS - h.attempts,
    ensures
        run(h, replies) is Ended,
    decreases replies.len(),
{
    match h.step(replies[0]) {
        StepView::Retry(next, _) => {
            lemma_ends_in_time(next, replies.skip(1));
        },
        StepView::Done(_) => {},
    }
}

/// When none of three waits brings a response from the server or a failure
/// of the endpoint, the request has left exactly three times and the
/// handshake ends without a response: the error is that nobody answered,
/// which is recoverable, not an error of one of the waits.
pub proof fn lemma_unanswered(target: Endpoint, replies: Seq<ReplyView>)
    requires
        replies.len() == MAX_CONNECT_ATTEMPTS,
        forall|i: int|
            0 <= i < replies.len() ==> !(#[trigger] replies[i]).answers(target)
                && !replies[i].is_fatal(),
    ensures
        run(HandshakeView::started(target), replies) == (RunView::Ended {
            sent: 3,
            result: Err(ClientFault::Unresponsive),
        }),
        ClientFault::Unresponsive.is_recoverable(),
{
    let h1 = HandshakeView::started(target);
    let h2 = HandshakeView { target, attempts: 2 };
    let h3 = HandshakeView { target, attempts: 3 };
    let r1 = replies.skip(1);
    let r2 = r1.skip(1);
    assert(r1[0] == replies[1]);
    assert(r2[0] == replies[2]);
    assert(h1.step(replies[0]) == StepView::Retry(h2, connect_request()));
    assert(h2.step(r1[0]) == StepView::Retry(h3, connect_request()));
    assert(h3.step(r2[0]) == StepView::Done(Err(ClientFault::Unresponsive)));
    assert(run(h3, r2) == (RunView::Ended { sent: 3, result: Err(ClientFault::Unresponsive) }));
    assert(run(h2, r1) == run(h3, r2));
    assert(run(h1, replies) == run(h2, r1));
}

/// A response of the server ends the handshake at once, whatever came
/// before: a grant gives a new session with the server's host on the port
/// granted, a refusal gives the server's reason, which is recoverable.
pub proof fn lemma_answer_decides(h: HandshakeView, response: ResponseView)
    ensures
        response matches ResponseView::Accept { port } ==> (0 <= port <= 65535 ==> h.step(
            ReplyView::From(response, h.target),
        ) == StepView::Done(
            Ok(QState::fresh(Endpoint { host: h.target.host, port: port as u16 })),
        )),
        response matches ResponseView::Reject { message } ==> (h.step(
            ReplyView::From(response, h.target),
        ) == StepView::Done(Err(ClientFault::Rejected(message)))
            && ClientFault::Rejected(message).is_recoverable()),
{
}

} // verus!
