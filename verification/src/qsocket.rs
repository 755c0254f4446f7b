//! The reliable transport: ordered, duplicate-free messages over datagrams
//! that may be lost, repeated or reordered, and a best-effort channel beside
//! it.
//!
//! A `QSocket` holds the state of one session and never touches an endpoint
//! itself. Its owner hands it each datagram that arrives and sends what it
//! asks for. One reliable message is in flight at a time, one fragment of it
//! after the other, each acknowledged before the next leaves.
//!
//! A datagram starts with eight bytes, all big-endian: the kind (16 bits), the
//! length of the whole datagram (16 bits) and the sequence number (32 bits).

use crate::addr::Endpoint;
use crate::error::{IoError, NetError, NetFault};
use crate::text::{concat, decimal_text, fmt_decimal};
use crate::wire::{
    be_bytes16, be_bytes32, be_u16, be_u32, put_bytes, put_u16_be, put_u32_be, Reader,
};
use vstd::prelude::*;
use vstd::slice::slice_to_vec;

verus! {

/// Size in bytes of the header that starts every datagram.
pub const HEADER_SIZE: usize = 8;

/// The largest payload one datagram carries.
pub const MAX_DATAGRAM: usize = 1024;

/// The largest datagram: a header and a full payload.
pub const DATAGRAM_SIZE: usize = HEADER_SIZE + MAX_DATAGRAM;

/// The largest message that is sent or put together again.
pub const MAX_NET_MESSAGE: usize = 8192;

/// Whether a receive waits for a message.
#[derive(Clone, Copy, Debug, PartialEq, Eq, Structural)]
pub enum BlockingMode {
    /// Wait until a whole message is there.
    Blocking,
    /// Return at once when none is there.
    NonBlocking,
}

/// The kind of a datagram, the first field of its header.
#[derive(Clone, Copy, Debug, PartialEq, Eq, Structural)]
pub enum MsgKind {
    /// A fragment of a reliable message with more to follow.
    Reliable,
    /// The acknowledgment of one reliable datagram.
    Ack,
    /// The last fragment of a reliable message.
    ReliableEom,
    /// A whole unreliable message.
    Unreliable,
    /// A control datagram outside any session.
    Ctl,
}

impl MsgKind {
    /// The number that stands for the kind in a header.
    pub open spec fn spec_code(self) -> u16 {
        match self {
            MsgKind::Reliable => 0x0001,
            MsgKind::Ack => 0x0002,
            MsgKind::ReliableEom => 0x0009,
            MsgKind::Unreliable => 0x0010,
            MsgKind::Ctl => 0x8000,
        }
    }

    /// The kind that a number stands for, if any.
    pub open spec fn spec_from_u16(code: u16) -> Option<MsgKind> {
        if code == 0x0001 {
            Some(MsgKind::Reliable)
        } else if code == 0x0002 {
            Some(MsgKind::Ack)
        } else if code == 0x0009 {
            Some(MsgKind::ReliableEom)
        } else if code == 0x0010 {
            Some(MsgKind::Unreliable)
        } else if code == 0x8000 {
            Some(MsgKind::Ctl)
        } else {
            None
        }
    }

    /// The number that stands for the kind in a header.
    #[verifier::when_used_as_spec(spec_code)]
    pub fn code(self) -> (r: u16)
        ensures
            r == self.spec_code(),
    {
        match self {
            MsgKind::Reliable => 0x0001,
            MsgKind::Ack => 0x0002,
            MsgKind::ReliableEom => 0x0009,
            MsgKind::Unreliable => 0x0010,
            MsgKind::Ctl => 0x8000,
        }
    }

    /// The kind that a number stands for, if any.
    pub fn from_u16(code: u16) -> (r: Option<MsgKind>)
        ensures
            r == MsgKind::spec_from_u16(code),
    {
        if code == 0x0001 {
            Some(MsgKind::Reliable)
        } else if code == 0x0002 {
            Some(MsgKind::Ack)
        } else if code == 0x0009 {
            Some(MsgKind::ReliableEom)
        } else if code == 0x0010 {
            Some(MsgKind::Unreliable)
        } else if code == 0x8000 {
            Some(MsgKind::Ctl)
        } else {
            None
        }
    }
}

/// The sequence number after `seq`; the numbers wrap around.
pub open spec fn next_seq(seq: u32) -> u32 {
    if seq == u32::MAX {
        0
    } else {
        (seq + 1) as u32
    }
}

/// The bytes of a datagram of the given kind and sequence number.
pub open spec fn datagram(kind: MsgKind, sequence: u32, payload: Seq<u8>) -> Seq<u8> {
    be_bytes16(kind.spec_code() as int) + be_bytes16(HEADER_SIZE + payload.len()) + be_bytes32(
        sequence as int,
    ) + payload
}

/// A datagram taken apart.
pub struct Datagram {
    pub kind: MsgKind,
    pub sequence: u32,
    pub payload: Seq<u8>,
}

/// The error for a header whose first field names no kind.
pub open spec fn bad_kind(code: u16) -> NetFault {
    NetFault::InvalidData("Invalid message kind: "@ + decimal_text(code as int))
}

/// The error for a header whose length field is not the datagram's length.
pub open spec fn bad_length(field: u16, actual: int) -> NetFault {
    NetFault::InvalidData(
        "Length field and actual length differ ("@ + decimal_text(field as int) + " != "@
            + decimal_text(actual) + ")"@,
    )
}

/// The error for fragments that add up to more than the largest message.
pub open spec fn too_long() -> NetFault {
    NetFault::InvalidData("Message exceeds maximum length"@)
}

/// What a packet holds. A packet shorter than a header holds nothing; a
/// header that names no kind or another length than the packet's is an error,
/// and so is a payload above the limit.
pub open spec fn parse_datagram(packet: Seq<u8>) -> Result<Option<Datagram>, NetFault> {
    if packet.len() < HEADER_SIZE {
        Ok(None)
    } else if MsgKind::spec_from_u16(be_u16(packet) as u16) is None {
        Err(bad_kind(be_u16(packet) as u16))
    } else if be_u16(packet.skip(2)) != packet.len() {
        Err(bad_length(be_u16(packet.skip(2)) as u16, packet.len() as int))
    } else if packet.len() > DATAGRAM_SIZE {
        Err(too_long())
    } else {
        Ok(
            Some(
                Datagram {
                    kind: MsgKind::spec_from_u16(be_u16(packet) as u16)->0,
                    sequence: be_u32(packet.skip(4)) as u32,
                    payload: packet.skip(HEADER_SIZE as int),
                },
            ),
        )
    }
}

/// The value of a [`QSocket`].
pub struct QState {
    /// The peer: datagrams from anyone else are dropped.
    pub remote: Endpoint,
    /// Sequence number of the next acknowledgment that is owed to this side.
    pub ack_sequence: u32,
    /// Sequence number of the next reliable datagram to leave.
    pub send_sequence: u32,
    /// Sequence number of the next unreliable datagram to leave.
    pub unreliable_send_sequence: u32,
    /// What is left of the outgoing message, the fragment in flight first.
    pub send_buf: Seq<u8>,
    /// Sequence number of the next reliable datagram that is taken in.
    pub recv_sequence: u32,
    /// Lowest sequence number of an unreliable datagram that is still new.
    pub unreliable_recv_sequence: u32,
    /// The fragments of the incoming message that have arrived.
    pub recv_buf: Seq<u8>,
}

/// What the owner of a session does after a datagram was taken in.
pub struct Delivery {
    /// A datagram to send to the peer.
    pub send: Option<Seq<u8>>,
    /// A message that is complete.
    pub message: Option<Seq<u8>>,
}

impl QState {
    /// The state of a new session with `remote`.
    pub open spec fn fresh(remote: Endpoint) -> QState {
        QState {
            remote,
            ack_sequence: 0,
            send_sequence: 0,
            unreliable_send_sequence: 0,
            send_buf: Seq::empty(),
            recv_sequence: 0,
            unreliable_recv_sequence: 0,
            recv_buf: Seq::empty(),
        }
    }

    /// No reliable message is in flight.
    pub open spec fn can_send(self) -> bool {
        self.send_buf.len() == 0
    }

    /// The buffers are within their limits, and the one datagram that has
    /// left and is not acknowledged is the fragment in flight.
    pub open spec fn wf(self) -> bool {
        &&& self.send_buf.len() <= MAX_NET_MESSAGE
        &&& self.recv_buf.len() <= MAX_NET_MESSAGE
        &&& self.send_sequence == if self.can_send() {
            self.ack_sequence
        } else {
            next_seq(self.ack_sequence)
        }
    }

    /// The fragment in flight: the head of what is left to send.
    pub open spec fn fragment(self) -> Seq<u8> {
        if self.send_buf.len() <= MAX_DATAGRAM {
            self.send_buf
        } else {
            self.send_buf.take(MAX_DATAGRAM as int)
        }
    }

    /// The datagram in flight: the fragment, marked as the last one if
    /// nothing follows it, under the sequence number whose acknowledgment
    /// is owed.
    pub open spec fn in_flight(self) -> Seq<u8> {
        datagram(
            if self.send_buf.len() <= MAX_DATAGRAM {
                MsgKind::ReliableEom
            } else {
                MsgKind::Reliable
            },
            self.ack_sequence,
            self.fragment(),
        )
    }

    /// The state after `msg` was taken for sending.
    pub open spec fn begun(self, msg: Seq<u8>) -> QState {
        QState { send_buf: msg, send_sequence: next_seq(self.send_sequence), ..self }
    }

    /// The state after the fragment in flight was acknowledged: the next
    /// fragment, if there is one, is in flight.
    pub open spec fn acked(self) -> QState {
        let rest = self.send_buf.skip(self.fragment().len() as int);
        QState {
            ack_sequence: next_seq(self.ack_sequence),
            send_sequence: if rest.len() == 0 {
                self.send_sequence
            } else {
                next_seq(self.send_sequence)
            },
            send_buf: rest,
            ..self
        }
    }

    /// Nothing happens: the state stays and the owner has nothing to do.
    pub open spec fn ignored(self) -> (QState, Delivery) {
        (self, Delivery { send: None, message: None })
    }

    /// What a datagram from the peer does to the state, and what it asks of
    /// the owner.
    pub open spec fn taken(self, d: Datagram) -> Result<(QState, Delivery), NetFault> {
        match d.kind {
            MsgKind::Ctl => Ok(self.ignored()),
            MsgKind::Unreliable => {
                if d.sequence < self.unreliable_recv_sequence {
                    Ok(self.ignored())
                } else {
                    Ok(
                        (
                            QState { unreliable_recv_sequence: next_seq(d.sequence), ..self },
                            Delivery { send: None, message: Some(d.payload) },
                        ),
                    )
                }
            },
            MsgKind::Ack => {
                if self.can_send() {
                    Ok(self.ignored())
                } else if d.sequence == self.ack_sequence {
                    let q = self.acked();
                    Ok(
                        (
                            q,
                            Delivery {
                                send: if q.can_send() {
                                    None
                                } else {
                                    Some(q.in_flight())
                                },
                                message: None,
                            },
                        ),
                    )
                } else {
                    Ok((self, Delivery { send: Some(self.in_flight()), message: None }))
                }
            },
            _ => {
                let ack = datagram(MsgKind::Ack, d.sequence, Seq::empty());
                if d.sequence != self.recv_sequence {
                    Ok((self, Delivery { send: Some(ack), message: None }))
                } else if self.recv_buf.len() + d.payload.len() > MAX_NET_MESSAGE {
                    Err(too_long())
                } else if d.kind == MsgKind::ReliableEom {
                    Ok(
                        (
                            QState {
                                recv_sequence: next_seq(self.recv_sequence),
                                recv_buf: Seq::empty(),
                                ..self
                            },
                            Delivery { send: Some(ack), message: Some(self.recv_buf + d.payload) },
                        ),
                    )
                } else {
                    Ok(
                        (
                            QState {
                                recv_sequence: next_seq(self.recv_sequence),
                                recv_buf: self.recv_buf + d.payload,
                                ..self
                            },
                            Delivery { send: Some(ack), message: None },
                        ),
                    )
                }
            },
        }
    }

    /// What a packet that arrived from `from` does to the state, and what it
    /// asks of the owner. A packet from anyone but the peer, and one shorter
    /// than a header, is dropped.
    pub open spec fn received(self, packet: Seq<u8>, from: Endpoint) -> Result<
        (QState, Delivery),
        NetFault,
    > {
        if from != self.remote {
            Ok(self.ignored())
        } else {
            match parse_datagram(packet) {
                Err(e) => Err(e),
                Ok(None) => Ok(self.ignored()),
                Ok(Some(d)) => self.taken(d),
            }
        }
    }
}

/// What the owner of a session does after a datagram was taken in.
#[derive(Clone, Debug, PartialEq, Eq)]
pub struct Received {
    /// A datagram to send to the peer.
    pub send: Option<Vec<u8>>,
    /// A message that is complete.
    pub message: Option<Vec<u8>>,
}

/// The bytes of an optional buffer.
pub open spec fn bytes_of(buf: Option<Vec<u8>>) -> Option<Seq<u8>> {
    match buf {
        Some(v) => Some(v@),
        None => None,
    }
}

impl View for Received {
    type V = Delivery;

    open spec fn view(&self) -> Delivery {
        Delivery { send: bytes_of(self.send), message: bytes_of(self.message) }
    }
}

/// The reliable sending side of a session: its two counters and its buffer,
/// which change together.
#[derive(Debug)]
struct SendSide {
    ack_sequence: u32,
    send_sequence: u32,
    send_buf: Vec<u8>,
}

/// The reliable receiving side of a session: its counter and its buffer,
/// which change together.
#[derive(Debug)]
struct RecvSide {
    recv_sequence: u32,
    recv_buf: Vec<u8>,
}

/// The state of one session of the reliable transport.
#[derive(Debug)]
pub struct QSocket {
    remote: Endpoint,
    out: SendSide,
    unreliable_send_sequence: u32,
    inc: RecvSide,
    unreliable_recv_sequence: u32,
}

impl View for QSocket {
    type V = QState;

    closed spec fn view(&self) -> QState {
        QState {
            remote: self.remote,
            ack_sequence: self.out.ack_sequence,
            send_sequence: self.out.send_sequence,
            unreliable_send_sequence: self.unreliable_send_sequence,
            send_buf: self.out.send_buf@,
            recv_sequence: self.inc.recv_sequence,
            unreliable_recv_sequence: self.unreliable_recv_sequence,
            recv_buf: self.inc.recv_buf@,
        }
    }
}

/// The sequence number after `seq`; the numbers wrap around.
fn advance(seq: u32) -> (r: u32)
    ensures
        r == next_seq(seq),
{
    if seq == u32::MAX {
        0
    } else {
        seq + 1
    }
}

/// Builds a datagram.
fn compose(kind: MsgKind, sequence: u32, payload: &[u8]) -> (r: Vec<u8>)
    requires
        payload@.len() <= MAX_DATAGRAM,
    ensures
        r@ == datagram(kind, sequence, payload@),
{
    let mut out: Vec<u8> = Vec::new();
    put_u16_be(&mut out, kind.code());
    put_u16_be(&mut out, (HEADER_SIZE + payload.len()) as u16);
    put_u32_be(&mut out, sequence);
    put_bytes(&mut out, payload);
    proof {
        assert(out@ =~= datagram(kind, sequence, payload@));
    }
    out
}

/// Takes a packet apart.
fn parse(packet: &[u8]) -> (r: Result<Option<(MsgKind, u32, Vec<u8>)>, NetError>)
    ensures
        match parse_datagram(packet@) {
            Ok(Some(d)) => r matches Ok(Some(x)) && x.0 == d.kind && x.1 == d.sequence && x.2@
                == d.payload,
            Ok(None) => r matches Ok(None),
            Err(fault) => r matches Err(e) && e@ == fault,
        },
{
    if packet.len() < HEADER_SIZE {
        return Ok(None);
    }
    let mut reader = Reader::new(packet);
    let code: u16 = match reader.read_u16_be() {
        Ok(v) => v,
        Err(e) => {
            return Err(e);
        },
    };
    let kind = match MsgKind::from_u16(code) {
        Some(k) => k,
        None => {
            let number = fmt_decimal(code as i128);
            return Err(NetError::InvalidData(concat("Invalid message kind: ", number.as_str())));
        },
    };
    let field: u16 = match reader.read_u16_be() {
        Ok(v) => v,
        Err(e) => {
            return Err(e);
        },
    };
    if field as usize != packet.len() {
        let field_text = fmt_decimal(field as i128);
        let actual_text = fmt_decimal(packet.len() as i128);
        let a = concat("Length field and actual length differ (", field_text.as_str());
        let b = concat(a.as_str(), " != ");
        let c = concat(b.as_str(), actual_text.as_str());
        let text = concat(c.as_str(), ")");
        proof {
            assert(NetFault::InvalidData(text@) =~= bad_length(field, packet@.len() as int));
        }
        return Err(NetError::InvalidData(text));
    }
    if packet.len() > DATAGRAM_SIZE {
        return Err(NetError::invalid_data("Message exceeds maximum length"));
    }
    let sequence: u32 = match reader.read_u32_be() {
        Ok(v) => v,
        Err(e) => {
            return Err(e);
        },
    };
    let payload = reader.read_to_end();
    proof {
        assert(packet@.skip(2).skip(2) =~= packet@.skip(4));
        assert(packet@.skip(4).skip(4) =~= packet@.skip(8));
    }
    Ok(Some((kind, sequence, payload)))
}

impl QSocket {
    #[verifier::type_invariant]
    spec fn inv(self) -> bool {
        self@.wf()
    }

    /// The state of a new session with `remote`.
    pub fn new(remote: Endpoint) -> (r: QSocket)
        ensures
            r@ == QState::fresh(remote),
    {
        QSocket {
            remote,
            out: SendSide { ack_sequence: 0, send_sequence: 0, send_buf: Vec::new() },
            unreliable_send_sequence: 0,
            inc: RecvSide { recv_sequence: 0, recv_buf: Vec::new() },
            unreliable_recv_sequence: 0,
        }
    }

    /// The peer of the session.
    pub fn remote(&self) -> (r: Endpoint)
        ensures
            r == self@.remote,
            self@.wf(),
    {
        proof {
            use_type_invariant(self);
        }
        self.remote
    }

    /// True when no reliable message is in flight, so that one may be sent.
    pub fn can_send(&self) -> (r: bool)
        ensures
            r == self@.can_send(),
    {
        self.out.send_buf.len() == 0
    }

    /// The datagram in flight.
    fn current(&self) -> (r: Vec<u8>)
        requires
            !self@.can_send(),
        ensures
            r@ == self@.in_flight(),
    {
        let whole = self.out.send_buf.as_slice();
        if whole.len() <= MAX_DATAGRAM {
            compose(MsgKind::ReliableEom, self.out.ack_sequence, whole)
        } else {
            compose(MsgKind::Reliable, self.out.ack_sequence, &whole[0..MAX_DATAGRAM])
        }
    }

    /// Takes a message for reliable sending and returns the datagram that
    /// holds its first fragment, for the owner to send.
    ///
    /// It is an error to send while a message is in flight, to send nothing,
    /// and to send more than the largest message; the state then stays.
    pub fn begin_send_msg(&mut self, msg: &[u8]) -> (r: Result<Vec<u8>, NetError>)
        ensures
            !old(self)@.can_send() ==> (r matches Err(e) && e@ == NetFault::Other(
                "begin_send_msg: previous message unacknowledged"@,
            ) && final(self)@ == old(self)@),
            old(self)@.can_send() && msg@.len() == 0 ==> (r matches Err(e) && e@
                == NetFault::Other("begin_send_msg: Input data has zero length"@) && final(self)@
                == old(self)@),
            old(self)@.can_send() && msg@.len() > MAX_NET_MESSAGE ==> (r matches Err(e) && e@
                == NetFault::Other("begin_send_msg: Input data exceeds maximum length"@)
                && final(self)@ == old(self)@),
            old(self)@.can_send() && 0 < msg@.len() <= MAX_NET_MESSAGE ==> (r matches Ok(d)
                && final(self)@ == old(self)@.begun(msg@) && d@ == final(self)@.in_flight()),
    {
        proof {
            use_type_invariant(&*self);
        }
        if !self.can_send() {
            return Err(NetError::with_msg("begin_send_msg: previous message unacknowledged"));
        }
        if msg.len() == 0 {
            return Err(NetError::with_msg("begin_send_msg: Input data has zero length"));
        }
        if msg.len() > MAX_NET_MESSAGE {
            return Err(NetError::with_msg("begin_send_msg: Input data exceeds maximum length"));
        }
        self.out = SendSide {
            ack_sequence: self.out.ack_sequence,
            send_sequence: advance(self.out.send_sequence),
            send_buf: slice_to_vec(msg),
        };
        Ok(self.current())
    }

    /// The datagram in flight once more, byte for byte, for the owner to
    /// send again when no acknowledgment came in time. It is an error when
    /// nothing is in flight.
    pub fn resend_msg(&self) -> (r: Result<Vec<u8>, NetError>)
        ensures
            self@.can_send() ==> (r matches Err(e) && e@ == NetFault::Other(
                "Attempted resend with empty send buffer"@,
            )),
            !self@.can_send() ==> (r matches Ok(d) && d@ == self@.in_flight()),
    {
        if self.can_send() {
            Err(NetError::with_msg("Attempted resend with empty send buffer"))
        } else {
            Ok(self.current())
        }
    }

    /// Builds the datagram of an unreliable message, for the owner to send.
    /// It is an error to send nothing, and to send more than one datagram
    /// holds; the state then stays.
    pub fn send_msg_unreliable(&mut self, content: &[u8]) -> (r: Result<Vec<u8>, NetError>)
        ensures
            content@.len() == 0 ==> (r matches Err(e) && e@ == NetFault::Other(
                "Unreliable message has zero length"@,
            ) && final(self)@ == old(self)@),
            content@.len() > MAX_DATAGRAM ==> (r matches Err(e) && e@ == NetFault::Other(
                "Unreliable message length exceeds maximum length"@,
            ) && final(self)@ == old(self)@),
            0 < content@.len() <= MAX_DATAGRAM ==> (r matches Ok(d) && d@ == datagram(
                MsgKind::Unreliable,
                old(self)@.unreliable_send_sequence,
                content@,
            ) && final(self)@ == (QState {
                unreliable_send_sequence: next_seq(old(self)@.unreliable_send_sequence),
                ..old(self)@
            })),
    {
        proof {
            use_type_invariant(&*self);
        }
        if content.len() == 0 {
            return Err(NetError::with_msg("Unreliable message has zero length"));
        }
        if content.len() > MAX_DATAGRAM {
            return Err(NetError::with_msg("Unreliable message length exceeds maximum length"));
        }
        let packet = compose(MsgKind::Unreliable, self.unreliable_send_sequence, content);
        self.unreliable_send_sequence = advance(self.unreliable_send_sequence);
        Ok(packet)
    }

    /// Takes in an unreliable datagram.
    fn take_unreliable(&mut self, sequence: u32, payload: Vec<u8>) -> (r: Received)
        ensures
            old(self)@.taken(Datagram { kind: MsgKind::Unreliable, sequence, payload: payload@ })
                == Ok::<(QState, Delivery), NetFault>((final(self)@, r@)),
    {
        proof {
            use_type_invariant(&*self);
        }
        if sequence < self.unreliable_recv_sequence {
            Received { send: None, message: None }
        } else {
            self.unreliable_recv_sequence = advance(sequence);
            Received { send: None, message: Some(payload) }
        }
    }

    /// Takes in an acknowledgment.
    fn take_ack(&mut self, sequence: u32, payload: Vec<u8>) -> (r: Received)
        ensures
            old(self)@.taken(Datagram { kind: MsgKind::Ack, sequence, payload: payload@ })
                == Ok::<(QState, Delivery), NetFault>((final(self)@, r@)),
    {
        proof {
            use_type_invariant(&*self);
        }
        if self.can_send() {
            Received { send: None, message: None }
        } else if sequence == self.out.ack_sequence {
            let whole = self.out.send_buf.as_slice();
            let sent: usize = if whole.len() <= MAX_DATAGRAM {
                whole.len()
            } else {
                MAX_DATAGRAM
            };
            let rest = slice_to_vec(&whole[sent..whole.len()]);
            let more = rest.len() > 0;
            proof {
                assert(rest@ =~= old(self)@.send_buf.skip(old(self)@.fragment().len() as int));
            }
            self.out = SendSide {
                ack_sequence: advance(self.out.ack_sequence),
                send_sequence: if more {
                    advance(self.out.send_sequence)
                } else {
                    self.out.send_sequence
                },
                send_buf: rest,
            };
            if more {
                Received { send: Some(self.current()), message: None }
            } else {
                Received { send: None, message: None }
            }
        } else {
            Received { send: Some(self.current()), message: None }
        }
    }

    /// Takes in a fragment of a reliable message; `last` says whether it is
    /// marked as the last one.
    fn take_reliable(&mut self, last: bool, sequence: u32, payload: Vec<u8>) -> (r: Result<
        Received,
        NetError,
    >)
        requires
            payload@.len() <= MAX_DATAGRAM,
        ensures
            match old(self)@.taken(
                Datagram {
                    kind: if last {
                        MsgKind::ReliableEom
                    } else {
                        MsgKind::Reliable
                    },
                    sequence,
                    payload: payload@,
                },
            ) {
                Ok((state, delivery)) => r matches Ok(x) && x@ == delivery && final(self)@
                    == state,
                Err(fault) => r matches Err(e) && e@ == fault && final(self)@ == old(self)@,
            },
    {
        proof {
            use_type_invariant(&*self);
        }
        let nothing: Vec<u8> = Vec::new();
        let ack = compose(MsgKind::Ack, sequence, nothing.as_slice());
        if sequence != self.inc.recv_sequence {
            Ok(Received { send: Some(ack), message: None })
        } else if payload.len() > MAX_NET_MESSAGE - self.inc.recv_buf.len() {
            Err(NetError::invalid_data("Message exceeds maximum length"))
        } else {
            let mut joined: Vec<u8> = Vec::new();
            put_bytes(&mut joined, self.inc.recv_buf.as_slice());
            put_bytes(&mut joined, payload.as_slice());
            let next = advance(self.inc.recv_sequence);
            if last {
                self.inc = RecvSide { recv_sequence: next, recv_buf: Vec::new() };
                Ok(Received { send: Some(ack), message: Some(joined) })
            } else {
                self.inc = RecvSide { recv_sequence: next, recv_buf: joined };
                Ok(Received { send: Some(ack), message: None })
            }
        }
    }

    /// Takes in a packet that arrived from `from`. The result says what the
    /// owner sends back and whether a message is complete. On an error the
    /// state stays.
    pub fn receive(&mut self, packet: &[u8], from: Endpoint) -> (r: Result<Received, NetError>)
        ensures
            match old(self)@.received(packet@, from) {
                Ok((state, delivery)) => r matches Ok(x) && x@ == delivery && final(self)@
                    == state,
                Err(fault) => r matches Err(e) && e@ == fault && final(self)@ == old(self)@,
            },
    {
        if !from.same_as(&self.remote) {
            return Ok(Received { send: None, message: None });
        }
        let (kind, sequence, payload) = match parse(packet) {
            Err(e) => {
                return Err(e);
            },
            Ok(None) => {
                return Ok(Received { send: None, message: None });
            },
            Ok(Some(parts)) => parts,
        };
        match kind {
            MsgKind::Ctl => Ok(Received { send: None, message: None }),
            MsgKind::Unreliable => Ok(self.take_unreliable(sequence, payload)),
            MsgKind::Ack => Ok(self.take_ack(sequence, payload)),
            MsgKind::Reliable => self.take_reliable(false, sequence, payload),
            MsgKind::ReliableEom => self.take_reliable(true, sequence, payload),
        }
    }

    /// What a receive does when the endpoint gave no datagram. When there was
    /// only none to read in time, a receive that does not wait ends with an
    /// empty message, which is no error, and one that waits goes on waiting
    /// (`None`). Any other failure ends the receive with that failure.
    pub fn recv_failed(block: BlockingMode, error: IoError) -> (r: Result<
        Option<Vec<u8>>,
        NetError,
    >)
        ensures
            !error@.is_timeout() ==> (r matches Err(e) && e@ == NetFault::Io(error@)),
            error@.is_timeout() && block == BlockingMode::Blocking ==> r matches Ok(None),
            error@.is_timeout() && block == BlockingMode::NonBlocking ==> (r matches Ok(Some(m))
                && m@.len() == 0),
    {
        if !error.is_timeout() {
            Err(NetError::Io(error))
        } else {
            match block {
                BlockingMode::Blocking => Ok(None),
                BlockingMode::NonBlocking => Ok(Some(Vec::new())),
            }
        }
    }
}

/// A datagram that was built is taken apart into what it was built from.
pub proof fn lemma_datagram_round_trip(kind: MsgKind, sequence: u32, payload: Seq<u8>)
    requires
        payload.len() <= MAX_DATAGRAM,
    ensures
        parse_datagram(datagram(kind, sequence, payload)) == Ok::<Option<Datagram>, NetFault>(
            Some(Datagram { kind, sequence, payload }),
        ),
{
    let p = datagram(kind, sequence, payload);
    crate::wire::lemma_bytes16_round_trip(kind.spec_code() as int);
    crate::wire::lemma_bytes16_round_trip(HEADER_SIZE + payload.len());
    crate::wire::lemma_bytes32_round_trip(sequence as int);
    assert(p.len() == HEADER_SIZE + payload.len());
    assert(be_u16(p) == be_u16(be_bytes16(kind.spec_code() as int)));
    assert(p.skip(2)[0] == be_bytes16(HEADER_SIZE + payload.len())[0]);
    assert(p.skip(2)[1] == be_bytes16(HEADER_SIZE + payload.len())[1]);
    assert(be_u16(p.skip(2)) == be_u16(be_bytes16(HEADER_SIZE + payload.len())));
    assert(p.skip(4)[0] == be_bytes32(sequence as int)[0]);
    assert(p.skip(4)[1] == be_bytes32(sequence as int)[1]);
    assert(p.skip(4)[2] == be_bytes32(sequence as int)[2]);
    assert(p.skip(4)[3] == be_bytes32(sequence as int)[3]);
    assert(be_u32(p.skip(4)) == be_u32(be_bytes32(sequence as int)));
    assert(p.skip(HEADER_SIZE as int) =~= payload);
}

/// Whatever arrives, a well-formed state stays well formed.
pub proof fn lemma_received_wf(q: QState, packet: Seq<u8>, from: Endpoint)
    requires
        q.wf(),
    ensures
        q.received(packet, from) matches Ok((state, _)) ==> state.wf(),
{
}

/// Delivering the same packet a second time completes no message and leaves
/// the state as the first delivery left it; a packet with data never touches
/// the sending side. (The one packet left out is an unreliable datagram with
/// the highest sequence number, after which the numbers start again.)
pub proof fn lemma_duplicate_suppressed(q: QState, packet: Seq<u8>, from: Endpoint)
    requires
        q.wf(),
        q.received(packet, from) is Ok,
        !(parse_datagram(packet) matches Ok(Some(d)) && d.kind == MsgKind::Unreliable && d.sequence
            == u32::MAX),
    ensures
        ({
            let first = q.received(packet, from)->Ok_0;
            let again = first.0.received(packet, from);
            &&& again matches Ok((state, delivery)) && state == first.0 && delivery.message is None
            &&& first.1.message is Some ==> first.0.send_buf == q.send_buf
                && first.0.ack_sequence == q.ack_sequence && first.0.send_sequence
                == q.send_sequence
        }),
{
}

/// One fragment goes over and its acknowledgment comes back: the states of
/// sender and receiver afterwards, and the message that the receiver
/// completed, if it did.
#[verifier::opaque]
pub open spec fn one_round(sender: QState, receiver: QState) -> (QState, QState, Option<Seq<u8>>) {
    let taken = receiver.received(sender.in_flight(), receiver.remote)->Ok_0;
    let back = sender.received(taken.1.send->Some_0, sender.remote)->Ok_0;
    (back.0, taken.0, taken.1.message)
}

/// Fragments go over and acknowledgments come back until the receiver
/// completes a message: the states of sender and receiver afterwards, the
/// message, and the number of fragments that it took.
pub open spec fn transfer(sender: QState, receiver: QState) -> (QState, QState, Option<Seq<u8>>, nat)
    decreases sender.send_buf.len(),
{
    let after = one_round(sender, receiver);
    if after.2 is Some || after.0.send_buf.len() >= sender.send_buf.len() {
        (after.0, after.1, after.2, 1)
    } else {
        let rest = transfer(after.0, after.1);
        (rest.0, rest.1, rest.2, rest.3 + 1)
    }
}

/// What one round does when the receiver waits for the very datagram that
/// is in flight: the fragment joins what the receiver has, the sender goes
/// on to the next fragment, and a message is complete exactly if the
/// fragment was the last one.
pub proof fn lemma_one_round(sender: QState, receiver: QState)
    requires
        sender.wf(),
        receiver.wf(),
        !sender.can_send(),
        receiver.recv_sequence == sender.ack_sequence,
        receiver.recv_buf.len() + sender.send_buf.len() <= MAX_NET_MESSAGE,
    ensures
        ({
            let after = one_round(sender, receiver);
            let last = sender.send_buf.len() <= MAX_DATAGRAM;
            &&& after.0 == sender.acked()
            &&& after.0.wf()
            &&& after.1.wf()
            &&& after.1.recv_sequence == after.0.ack_sequence
            &&& after.1 == (QState {
                recv_sequence: next_seq(receiver.recv_sequence),
                recv_buf: if last {
                    Seq::empty()
                } else {
                    receiver.recv_buf + sender.fragment()
                },
                ..receiver
            })
            &&& after.2 == if last {
                Some(receiver.recv_buf + sender.send_buf)
            } else {
                None
            }
        }),
{
    reveal(one_round);
    let kind = if sender.send_buf.len() <= MAX_DATAGRAM {
        MsgKind::ReliableEom
    } else {
        MsgKind::Reliable
    };
    lemma_datagram_round_trip(kind, sender.ack_sequence, sender.fragment());
    lemma_datagram_round_trip(MsgKind::Ack, sender.ack_sequence, Seq::empty());
    let taken = receiver.received(sender.in_flight(), receiver.remote);
    assert(taken == receiver.taken(
        Datagram { kind, sequence: sender.ack_sequence, payload: sender.fragment() },
    ));
    let ack = datagram(MsgKind::Ack, sender.ack_sequence, Seq::empty());
    assert(taken->Ok_0.1.send == Some(ack));
    let back = sender.received(ack, sender.remote);
    assert(back == sender.taken(
        Datagram { kind: MsgKind::Ack, sequence: sender.ack_sequence, payload: Seq::empty() },
    ));
}

/// A message that is sent in fragments arrives whole and once: when every
/// fragment in flight reaches a receiver that waits for it and every
/// acknowledgment comes back, the receiver completes exactly the bytes that
/// it had and that were left to send, and it does so on the last fragment,
/// after as many fragments as the bytes left to send need payloads. The
/// sender can then send again.
pub proof fn lemma_transfer(sender: QState, receiver: QState)
    requires
        sender.wf(),
        receiver.wf(),
        !sender.can_send(),
        receiver.recv_sequence == sender.ack_sequence,
        receiver.recv_buf.len() + sender.send_buf.len() <= MAX_NET_MESSAGE,
    ensures
        ({
            let end = transfer(sender, receiver);
            &&& end.2 == Some(receiver.recv_buf + sender.send_buf)
            &&& end.3 == (sender.send_buf.len() + MAX_DATAGRAM - 1) / (MAX_DATAGRAM as int)
            &&& end.0.can_send()
            &&& end.0.wf()
            &&& end.1.wf()
            &&& end.1.recv_buf.len() == 0
            &&& end.1.recv_sequence == end.0.ack_sequence
        }),
    decreases sender.send_buf.len(),
{
    lemma_one_round(sender, receiver);
    let after = one_round(sender, receiver);
    let left = sender.send_buf.len() as int;
    if left > MAX_DATAGRAM {
        assert(after.0.send_buf == sender.send_buf.skip(MAX_DATAGRAM as int));
        assert(after.0.send_buf.len() == left - MAX_DATAGRAM);
        assert(after.1.recv_buf == receiver.recv_buf + sender.send_buf.take(MAX_DATAGRAM as int));
        lemma_transfer(after.0, after.1);
        assert(after.1.recv_buf + after.0.send_buf =~= receiver.recv_buf + sender.send_buf);
        assert((left - 1024 + 1023) / 1024 + 1 == (left + 1023) / 1024);
    } else {
        assert(after.2 is Some);
        assert((left + 1023) / 1024 == 1);
    }
}

/// A message that a new session sends arrives whole at a new session: two
/// fragments for 2000 bytes, the first of 1024.
pub proof fn lemma_message_arrives(sender: Endpoint, receiver: Endpoint, msg: Seq<u8>)
    requires
        0 < msg.len() <= MAX_NET_MESSAGE,
    ensures
        transfer(QState::fresh(receiver).begun(msg), QState::fresh(sender)).2 == Some(msg),
        msg.len() == 2000 ==> transfer(QState::fresh(receiver).begun(msg), QState::fresh(sender)).3
            == 2 && QState::fresh(receiver).begun(msg).fragment().len() == 1024,
{
    let s = QState::fresh(receiver).begun(msg);
    let r = QState::fresh(sender);
    lemma_transfer(s, r);
    assert(r.recv_buf + msg =~= msg);
}

/// Taking a message for sending puts its first fragment in flight: a
/// datagram under the next sequence number that holds the first payload of
/// the message, or all of it, and is marked as the last one exactly if the
/// message fits into it.
pub proof fn lemma_first_fragment(q: QState, msg: Seq<u8>)
    requires
        q.wf(),
        q.can_send(),
        0 < msg.len() <= MAX_NET_MESSAGE,
    ensures
        q.begun(msg).wf(),
        !q.begun(msg).can_send(),
        parse_datagram(q.begun(msg).in_flight()) == Ok::<Option<Datagram>, NetFault>(
            Some(
                Datagram {
                    kind: if msg.len() <= MAX_DATAGRAM {
                        MsgKind::ReliableEom
                    } else {
                        MsgKind::Reliable
                    },
                    sequence: q.send_sequence,
                    payload: if msg.len() <= MAX_DATAGRAM {
                        msg
                    } else {
                        msg.take(MAX_DATAGRAM as int)
                    },
                },
            ),
        ),
{
    let b = q.begun(msg);
    lemma_datagram_round_trip(
        if msg.len() <= MAX_DATAGRAM {
            MsgKind::ReliableEom
        } else {
            MsgKind::Reliable
        },
        q.send_sequence,
        b.fragment(),
    );
}

} // verus!
