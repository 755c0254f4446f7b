//! Requests and responses on the wire.
//!
//! They travel in control packets, outside any session. A control packet
//! starts with four bytes, big-endian: the kind of a control datagram (16
//! bits) and the length of the whole packet (16 bits). Then comes one byte
//! that says which request or response it is, and its content: numbers
//! little-endian, texts with a closing zero byte.

use crate::addr::Endpoint;
use crate::connect::{
    ConnectStep, Handshake, HandshakeView, ReplyView, Request, RequestConnect, RequestView,
    Response, ResponseAccept, ResponseReject, ResponseView, StepView, MAX_CONNECT_ATTEMPTS,
};
use crate::error::{ClientFault, IoError, NetError, NetFault};
use crate::qsocket::bad_length;
use crate::text::{concat, decimal_text, fmt_decimal};
use crate::wire::{
    be_bytes16, be_u16, cstring_bytes, le_bytes32, le_u32, lemma_bytes16_round_trip,
    lemma_bytes32_round_trip, lemma_cstring_round_trip, put_bytes, put_cstring, put_i32,
    put_u16_be, signed32, take_cstring, text_ok, truncated, Reader,
};
use vstd::prelude::*;

verus! {

/// Size in bytes of the header that starts a control packet.
pub const CONTROL_HEADER_SIZE: usize = 4;

/// The largest control packet: its length has sixteen bits.
pub const MAX_CONTROL_PACKET: usize = 65535;

/// The first field of a control packet's header.
pub const CONTROL_KIND: u16 = 0x8000;

/// The code of a request for a session.
pub const REQUEST_CONNECT: u8 = 0x01;

/// The code of the response that grants a session.
pub const RESPONSE_ACCEPT: u8 = 0x81;

/// The code of the response that declines a session.
pub const RESPONSE_REJECT: u8 = 0x82;

/// The code of the response that describes the server.
pub const RESPONSE_SERVER_INFO: u8 = 0x83;

/// The code of the response that describes a player.
pub const RESPONSE_PLAYER_INFO: u8 = 0x84;

/// The code of the response that tells a rule of the game.
pub const RESPONSE_RULE_INFO: u8 = 0x85;

/// The bytes of a control packet with the given body.
pub open spec fn control_packet(body: Seq<u8>) -> Seq<u8> {
    be_bytes16(CONTROL_KIND as int) + be_bytes16(CONTROL_HEADER_SIZE + body.len()) + body
}

/// The error for a packet whose header does not say that it is a control
/// packet.
pub open spec fn not_control(kind: u16) -> NetFault {
    NetFault::InvalidData("Not a control packet: "@ + decimal_text(kind as int))
}

/// The error for a body that a control packet has no room for.
pub open spec fn too_large() -> NetFault {
    NetFault::Other("Control packet exceeds maximum length"@)
}

/// The body of a control packet. A packet that is shorter than its header,
/// that is of another kind, or whose length field is not its length is an
/// error.
pub open spec fn control_body(packet: Seq<u8>) -> Result<Seq<u8>, NetFault> {
    if packet.len() < CONTROL_HEADER_SIZE {
        Err(truncated())
    } else if be_u16(packet) != CONTROL_KIND {
        Err(not_control(be_u16(packet) as u16))
    } else if be_u16(packet.skip(2)) != packet.len() {
        Err(bad_length(be_u16(packet.skip(2)) as u16, packet.len() as int))
    } else {
        Ok(packet.skip(CONTROL_HEADER_SIZE as int))
    }
}

/// The body of a request: its code, then for a request to connect the name
/// of the game as a text and the version of the handshake, one byte.
pub open spec fn request_body(request: RequestView) -> Seq<u8> {
    match request {
        RequestView::Connect { game_name, protocol_version } => seq![REQUEST_CONNECT]
            + cstring_bytes(game_name) + seq![protocol_version],
    }
}

/// The request that a body holds. A code that names no request is an
/// error.
pub open spec fn take_request(body: Seq<u8>) -> Result<RequestView, NetFault> {
    if body.len() < 1 {
        Err(truncated())
    } else if body[0] != REQUEST_CONNECT {
        Err(NetFault::InvalidRequest(body[0]))
    } else {
        match take_cstring(body.skip(1)) {
            Err(e) => Err(e),
            Ok((game_name, n)) => {
                if body.len() < 1 + n + 1 {
                    Err(truncated())
                } else {
                    Ok(RequestView::Connect { game_name, protocol_version: body[1 + n] })
                }
            },
        }
    }
}

/// The body of a response: its code, then the port as a number of four
/// bytes for a grant, the reason as a text for a refusal, and nothing for
/// any other response.
pub open spec fn response_body(response: ResponseView) -> Seq<u8> {
    match response {
        ResponseView::Accept { port } => seq![RESPONSE_ACCEPT] + le_bytes32(port as int),
        ResponseView::Reject { message } => seq![RESPONSE_REJECT] + cstring_bytes(message),
        ResponseView::Other(code) => seq![code],
    }
}

/// True for the codes of the responses that are known by their code alone.
pub open spec fn is_other_response(code: u8) -> bool {
    code == RESPONSE_SERVER_INFO || code == RESPONSE_PLAYER_INFO || code == RESPONSE_RULE_INFO
}

/// The response that a body holds. A code that names no response is an
/// error.
pub open spec fn take_response(body: Seq<u8>) -> Result<ResponseView, NetFault> {
    if body.len() < 1 {
        Err(truncated())
    } else if body[0] == RESPONSE_ACCEPT {
        if body.len() < 5 {
            Err(truncated())
        } else {
            Ok(ResponseView::Accept { port: signed32(le_u32(body.skip(1))) as i32 })
        }
    } else if body[0] == RESPONSE_REJECT {
        match take_cstring(body.skip(1)) {
            Err(e) => Err(e),
            Ok((message, _)) => Ok(ResponseView::Reject { message }),
        }
    } else if is_other_response(body[0]) {
        Ok(ResponseView::Other(body[0]))
    } else {
        Err(NetFault::InvalidResponse(body[0]))
    }
}

/// The request that a packet holds.
pub open spec fn parse_request(packet: Seq<u8>) -> Result<RequestView, NetFault> {
    match control_body(packet) {
        Err(e) => Err(e),
        Ok(body) => take_request(body),
    }
}

/// The response that a packet holds.
pub open spec fn parse_response(packet: Seq<u8>) -> Result<ResponseView, NetFault> {
    match control_body(packet) {
        Err(e) => Err(e),
        Ok(body) => take_response(body),
    }
}

/// A request that its bytes give back: the name of the game holds no zero
/// byte.
pub open spec fn request_ok(request: RequestView) -> bool {
    match request {
        RequestView::Connect { game_name, .. } => text_ok(game_name),
    }
}

/// A response that its bytes give back: the reason of a refusal holds no
/// zero byte, and a response known by its code alone has one of the codes
/// of such responses.
pub open spec fn response_ok(response: ResponseView) -> bool {
    match response {
        ResponseView::Accept { .. } => true,
        ResponseView::Reject { message } => text_ok(message),
        ResponseView::Other(code) => is_other_response(code),
    }
}

/// The body of a control packet that was built is the body it was built
/// with.
pub proof fn lemma_control_round_trip(body: Seq<u8>)
    requires
        CONTROL_HEADER_SIZE + body.len() <= MAX_CONTROL_PACKET,
    ensures
        control_body(control_packet(body)) == Ok::<Seq<u8>, NetFault>(body),
{
    let p = control_packet(body);
    lemma_bytes16_round_trip(CONTROL_KIND as int);
    lemma_bytes16_round_trip(CONTROL_HEADER_SIZE + body.len());
    assert(be_u16(p) == be_u16(be_bytes16(CONTROL_KIND as int)));
    assert(p.skip(2)[0] == be_bytes16(CONTROL_HEADER_SIZE + body.len())[0]);
    assert(p.skip(2)[1] == be_bytes16(CONTROL_HEADER_SIZE + body.len())[1]);
    assert(p.skip(CONTROL_HEADER_SIZE as int) =~= body);
}

/// A request comes back from the packet that was built for it.
pub proof fn lemma_request_round_trip(request: RequestView)
    requires
        request_ok(request),
        CONTROL_HEADER_SIZE + request_body(request).len() <= MAX_CONTROL_PACKET,
    ensures
        parse_request(control_packet(request_body(request))) == Ok::<RequestView, NetFault>(
            request,
        ),
{
    let body = request_body(request);
    lemma_control_round_trip(body);
    match request {
        RequestView::Connect { game_name, protocol_version } => {
            assert(body[0] == REQUEST_CONNECT);
            assert(body.skip(1) =~= cstring_bytes(game_name) + seq![protocol_version]);
            lemma_cstring_round_trip(game_name, seq![protocol_version]);
            let n = cstring_bytes(game_name).len() as int;
            assert(body[1 + n] == protocol_version);
        },
    }
}

/// A response comes back from the packet that was built for it.
pub proof fn lemma_response_round_trip(response: ResponseView)
    requires
        response_ok(response),
        CONTROL_HEADER_SIZE + response_body(response).len() <= MAX_CONTROL_PACKET,
    ensures
        parse_response(control_packet(response_body(response))) == Ok::<ResponseView, NetFault>(
            response,
        ),
{
    let body = response_body(response);
    lemma_control_round_trip(body);
    match response {
        ResponseView::Accept { port } => {
            lemma_bytes32_round_trip(port as int);
            assert(body[0] == RESPONSE_ACCEPT);
            assert(le_u32(body.skip(1)) == le_u32(le_bytes32(port as int)));
        },
        ResponseView::Reject { message } => {
            assert(body[0] == RESPONSE_REJECT);
            assert(body.skip(1) =~= cstring_bytes(message) + Seq::<u8>::empty());
            lemma_cstring_round_trip(message, Seq::empty());
        },
        ResponseView::Other(code) => {
            assert(body[0] == code);
        },
    }
}

/// Wraps a body into a control packet, if it has room for it.
fn wrap(body: Vec<u8>) -> (r: Result<Vec<u8>, NetError>)
    ensures
        CONTROL_HEADER_SIZE + body@.len() <= MAX_CONTROL_PACKET ==> (r matches Ok(p) && p@
            == control_packet(body@)),
        CONTROL_HEADER_SIZE + body@.len() > MAX_CONTROL_PACKET ==> (r matches Err(e) && e@
            == too_large()),
{
    if body.len() > MAX_CONTROL_PACKET - CONTROL_HEADER_SIZE {
        return Err(NetError::with_msg("Control packet exceeds maximum length"));
    }
    let mut out: Vec<u8> = Vec::new();
    put_u16_be(&mut out, CONTROL_KIND);
    put_u16_be(&mut out, (CONTROL_HEADER_SIZE + body.len()) as u16);
    put_bytes(&mut out, body.as_slice());
    Ok(out)
}

/// Checks the header of a control packet and returns a reader that stands
/// at the start of the body.
fn unwrap<'a>(packet: &'a [u8]) -> (r: Result<Reader<'a>, NetError>)
    ensures
        match control_body(packet@) {
            Ok(body) => r matches Ok(reader) && reader.remaining() == body,
            Err(fault) => r matches Err(e) && e@ == fault,
        },
{
    let mut reader = Reader::new(packet);
    let kind: u16 = reader.read_u16_be()?;
    let field: u16 = reader.read_u16_be()?;
    if kind != CONTROL_KIND {
        let number = fmt_decimal(kind as i128);
        return Err(NetError::InvalidData(concat("Not a control packet: ", number.as_str())));
    }
    if field as usize != packet.len() {
        let field_text = fmt_decimal(field as i128);
        let actual_text = fmt_decimal(packet.len() as i128);
        let a = concat("Length field and actual length differ (", field_text.as_str());
        let b = concat(a.as_str(), " != ");
        let c = concat(b.as_str(), actual_text.as_str());
        let text = concat(c.as_str(), ")");
        proof {
            assert(NetFault::InvalidData(text@) =~= bad_length(field, packet@.len() as int));
        }
        return Err(NetError::InvalidData(text));
    }
    proof {
        assert(packet@.skip(2).skip(2) =~= packet@.skip(4));
    }
    Ok(reader)
}

impl Request {
    /// The control packet that carries the request. A request that is too
    /// long for a packet is an error.
    pub fn to_bytes(&self) -> (r: Result<Vec<u8>, NetError>)
        ensures
            CONTROL_HEADER_SIZE + request_body(self@).len() <= MAX_CONTROL_PACKET ==> (r matches Ok(
                p,
            ) && p@ == control_packet(request_body(self@))),
            CONTROL_HEADER_SIZE + request_body(self@).len() > MAX_CONTROL_PACKET ==> (r matches Err(
                e,
            ) && e@ == too_large()),
    {
        let mut body: Vec<u8> = Vec::new();
        match self {
            Request::Connect(connect) => {
                body.push(REQUEST_CONNECT);
                put_cstring(&mut body, connect.game_name.as_str());
                body.push(connect.protocol_version);
            },
        }
        proof {
            assert(body@ =~= request_body(self@));
        }
        wrap(body)
    }

    /// Reads a request from a control packet.
    pub fn from_bytes(packet: &[u8]) -> (r: Result<Request, NetError>)
        ensures
            match parse_request(packet@) {
                Ok(request) => r matches Ok(x) && x@ == request,
                Err(fault) => r matches Err(e) && e@ == fault,
            },
    {
        let mut reader = unwrap(packet)?;
        let ghost body = reader.remaining();
        let code: u8 = reader.read_u8()?;
        if code != REQUEST_CONNECT {
            return Err(NetError::InvalidRequest(code));
        }
        let game_name = reader.read_cstring()?;
        let protocol_version: u8 = reader.read_u8()?;
        proof {
            let n = take_cstring(body.skip(1))->Ok_0.1;
            assert(body.skip(1).skip(n)[0] == body[1 + n]);
        }
        Ok(Request::Connect(RequestConnect { game_name, protocol_version }))
    }
}

impl Response {
    /// The control packet that carries the response. A response that is
    /// too long for a packet is an error.
    pub fn to_bytes(&self) -> (r: Result<Vec<u8>, NetError>)
        ensures
            CONTROL_HEADER_SIZE + response_body(self@).len() <= MAX_CONTROL_PACKET ==> (
            r matches Ok(p) && p@ == control_packet(response_body(self@))),
            CONTROL_HEADER_SIZE + response_body(self@).len() > MAX_CONTROL_PACKET ==> (
            r matches Err(e) && e@ == too_large()),
    {
        let mut body: Vec<u8> = Vec::new();
        match self {
            Response::Accept(accept) => {
                body.push(RESPONSE_ACCEPT);
                put_i32(&mut body, accept.port);
            },
            Response::Reject(reject) => {
                body.push(RESPONSE_REJECT);
                put_cstring(&mut body, reject.message.as_str());
            },
            Response::Other(code) => {
                body.push(*code);
            },
        }
        proof {
            assert(body@ =~= response_body(self@));
        }
        wrap(body)
    }

    /// Reads a response from a control packet.
    pub fn from_bytes(packet: &[u8]) -> (r: Result<Response, NetError>)
        ensures
            match parse_response(packet@) {
                Ok(response) => r matches Ok(x) && x@ == response,
                Err(fault) => r matches Err(e) && e@ == fault,
            },
    {
        let mut reader = unwrap(packet)?;
        let code: u8 = reader.read_u8()?;
        if code == RESPONSE_ACCEPT {
            let port: i32 = reader.read_i32()?;
            Ok(Response::Accept(ResponseAccept { port }))
        } else if code == RESPONSE_REJECT {
            let message = reader.read_cstring()?;
            Ok(Response::Reject(ResponseReject { message }))
        } else if code == RESPONSE_SERVER_INFO || code == RESPONSE_PLAYER_INFO || code
            == RESPONSE_RULE_INFO {
            Ok(Response::Other(code))
        } else {
            Err(NetError::InvalidResponse(code))
        }
    }
}

/// What a packet that arrived from `from` is to a handshake: the response
/// that it holds and where it came from, or the error that reading it ended
/// in.
pub open spec fn packet_reply(packet: Seq<u8>, from: Endpoint) -> ReplyView {
    match parse_response(packet) {
        Ok(response) => ReplyView::From(response, from),
        Err(fault) => ReplyView::Failed(fault),
    }
}

impl Handshake {
    /// Tells the handshake that a packet arrived from `from` while it
    /// waited, and returns what to do next. A packet that holds no response
    /// does not end the handshake.
    pub fn on_packet(self, packet: &[u8], from: Endpoint) -> (r: ConnectStep)
        ensures
            r@ == self@.step(packet_reply(packet@, from)),
    {
        match Response::from_bytes(packet) {
            Ok(response) => self.on_reply(Ok(Some((response, from)))),
            Err(e) => self.on_reply(Err(e)),
        }
    }

    /// Tells the handshake that no packet arrived in time, and returns what
    /// to do next.
    pub fn on_timeout(self) -> (r: ConnectStep)
        ensures
            r@ == self@.step(ReplyView::Nothing),
    {
        self.on_reply(Ok(None))
    }

    /// Tells the handshake that the endpoint failed while it waited, and
    /// returns what to do next.
    pub fn on_failure(self, error: IoError) -> (r: ConnectStep)
        ensures
            r@ == self@.step(ReplyView::Failed(NetFault::Io(error@))),
    {
        self.on_reply(Err(NetError::Io(error)))
    }
}

/// Whatever bytes arrive, from whomever: a packet that holds no response
/// never ends a handshake before its third request has left, and then only
/// as unanswered.
pub proof fn lemma_noise_is_survived(h: HandshakeView, packet: Seq<u8>, from: Endpoint)
    requires
        parse_response(packet) is Err,
    ensures
        h.attempts < MAX_CONNECT_ATTEMPTS ==> h.step(packet_reply(packet, from)) is Retry,
        h.attempts >= MAX_CONNECT_ATTEMPTS ==> h.step(packet_reply(packet, from))
            == StepView::Done(Err(ClientFault::Unresponsive)),
{
}

} // verus!
