//! The error types of the network layer and of the session driver.

use crate::text::{concat, decimal_text, fmt_decimal, fmt_upper_hex, radix_digits};
use vstd::prelude::*;

verus! {

/// What a failed datagram operation was, as far as the protocol cares.
#[derive(Clone, Copy, Debug, PartialEq, Eq, Structural)]
pub enum IoErrorKind {
    /// Nothing was there to read and the endpoint does not wait.
    WouldBlock,
    /// The wait for a datagram ran out.
    TimedOut,
    /// Any other failure of the endpoint.
    Other,
}

/// A failure reported by the datagram endpoint.
#[derive(Clone, Debug, PartialEq, Eq)]
pub struct IoError {
    pub kind: IoErrorKind,
    pub text: String,
}

/// The value of an [`IoError`].
pub struct IoFault {
    pub kind: IoErrorKind,
    pub text: Seq<char>,
}

impl View for IoError {
    type V = IoFault;

    open spec fn view(&self) -> IoFault {
        IoFault { kind: self.kind, text: self.text@ }
    }
}

impl IoError {
    /// An endpoint failure of the given kind with its text.
    pub fn new(kind: IoErrorKind, text: &str) -> (r: Self)
        ensures
            r@ == (IoFault { kind, text: text@ }),
    {
        IoError { kind, text: text.to_owned() }
    }

    /// True when the failure only says that no datagram came in time.
    pub fn is_timeout(&self) -> (r: bool)
        ensures
            r == self@.is_timeout(),
    {
        match self.kind {
            IoErrorKind::WouldBlock => true,
            IoErrorKind::TimedOut => true,
            IoErrorKind::Other => false,
        }
    }
}

impl IoFault {
    /// True when the failure only says that no datagram came in time.
    pub open spec fn is_timeout(self) -> bool {
        self.kind != IoErrorKind::Other
    }
}

/// An error of the network layer.
#[derive(Clone, Debug, PartialEq, Eq)]
pub enum NetError {
    /// The datagram endpoint failed.
    Io(IoError),
    /// A request started with a code that names no request.
    InvalidRequest(u8),
    /// A response or server command started with a code that names none.
    InvalidResponse(u8),
    /// Bytes that break the wire format: a field cut short, a text without
    /// its terminator, a length that does not match.
    InvalidData(String),
    /// Any other failure, with its text.
    Other(String),
}

/// The value of a [`NetError`].
pub enum NetFault {
    Io(IoFault),
    InvalidRequest(u8),
    InvalidResponse(u8),
    InvalidData(Seq<char>),
    Other(Seq<char>),
}

impl View for NetError {
    type V = NetFault;

    open spec fn view(&self) -> NetFault {
        match self {
            NetError::Io(e) => NetFault::Io(e@),
            NetError::InvalidRequest(code) => NetFault::InvalidRequest(*code),
            NetError::InvalidResponse(code) => NetFault::InvalidResponse(*code),
            NetError::InvalidData(msg) => NetFault::InvalidData(msg@),
            NetError::Other(msg) => NetFault::Other(msg@),
        }
    }
}

impl NetFault {
    /// True for content that violates the wire format, false for a failure of
    /// the endpoint.
    pub open spec fn is_malformed(self) -> bool {
        !(self is Io)
    }

    /// The text shown for the error.
    pub open spec fn message(self) -> Seq<char> {
        match self {
            NetFault::Io(e) => "I/O error: "@ + e.text,
            NetFault::InvalidRequest(code) => "Invalid request code: "@ + radix_digits(
                code as nat,
                16,
            ),
            NetFault::InvalidResponse(code) => "Invalid response code: "@ + radix_digits(
                code as nat,
                16,
            ),
            NetFault::InvalidData(msg) => "Invalid data: "@ + msg,
            NetFault::Other(msg) => msg,
        }
    }

    /// The short name of the error's kind.
    pub open spec fn description(self) -> Seq<char> {
        match self {
            NetFault::Io(e) => e.text,
            NetFault::InvalidRequest(_) => "Invalid request code"@,
            NetFault::InvalidResponse(_) => "Invalid response code"@,
            NetFault::InvalidData(_) => "Invalid data"@,
            NetFault::Other(msg) => msg,
        }
    }
}

impl NetError {
    /// An error that carries only a text.
    pub fn with_msg(msg: &str) -> (r: Self)
        ensures
            r@ == NetFault::Other(msg@),
    {
        NetError::Other(msg.to_owned())
    }

    /// An error for bytes that break the wire format.
    pub fn invalid_data(msg: &str) -> (r: Self)
        ensures
            r@ == NetFault::InvalidData(msg@),
    {
        NetError::InvalidData(msg.to_owned())
    }

    /// True for content that violates the wire format, false for a failure of
    /// the endpoint.
    pub fn is_malformed(&self) -> (r: bool)
        ensures
            r == self@.is_malformed(),
    {
        match self {
            NetError::Io(_) => false,
            _ => true,
        }
    }

    /// The text shown for the error.
    pub fn message(&self) -> (r: String)
        ensures
            r@ == self@.message(),
    {
        match self {
            NetError::Io(e) => concat("I/O error: ", e.text.as_str()),
            NetError::InvalidRequest(code) => {
                let digits = fmt_upper_hex(*code);
                concat("Invalid request code: ", digits.as_str())
            },
            NetError::InvalidResponse(code) => {
                let digits = fmt_upper_hex(*code);
                concat("Invalid response code: ", digits.as_str())
            },
            NetError::InvalidData(msg) => concat("Invalid data: ", msg.as_str()),
            NetError::Other(msg) => msg.clone(),
        }
    }

    /// The short name of the error's kind.
    pub fn description(&self) -> (r: String)
        ensures
            r@ == self@.description(),
    {
        match self {
            NetError::Io(e) => e.text.clone(),
            NetError::InvalidRequest(_) => "Invalid request code".to_owned(),
            NetError::InvalidResponse(_) => "Invalid response code".to_owned(),
            NetError::InvalidData(_) => "Invalid data".to_owned(),
            NetError::Other(msg) => msg.clone(),
        }
    }
}

impl From<IoError> for NetError {
    fn from(error: IoError) -> (r: NetError) {
        NetError::Io(error)
    }
}

impl vstd::std_specs::convert::FromSpecImpl<IoError> for NetError {
    open spec fn obeys_from_spec() -> bool {
        true
    }

    open spec fn from_spec(error: IoError) -> NetError {
        NetError::Io(error)
    }
}

/// An error of the session driver.
#[derive(Clone, Debug, PartialEq, Eq)]
pub enum ClientError {
    /// The datagram endpoint failed.
    Io(IoError),
    /// The network layer failed.
    Net(NetError),
    /// The server declined the connection and gave this reason.
    Rejected(String),
    /// No valid reply came within the attempts allowed.
    Unresponsive,
    /// The server speaks another protocol version than this client.
    ProtocolMismatch { got: i32, expected: i32 },
    /// Any other failure, with its text.
    Other(String),
}

/// The value of a [`ClientError`].
pub enum ClientFault {
    Io(IoFault),
    Net(NetFault),
    Rejected(Seq<char>),
    Unresponsive,
    ProtocolMismatch { got: i32, expected: i32 },
    Other(Seq<char>),
}

impl View for ClientError {
    type V = ClientFault;

    open spec fn view(&self) -> ClientFault {
        match self {
            ClientError::Io(e) => ClientFault::Io(e@),
            ClientError::Net(e) => ClientFault::Net(e@),
            ClientError::Rejected(reason) => ClientFault::Rejected(reason@),
            ClientError::Unresponsive => ClientFault::Unresponsive,
            ClientError::ProtocolMismatch { got, expected } => ClientFault::ProtocolMismatch {
                got: *got,
                expected: *expected,
            },
            ClientError::Other(msg) => ClientFault::Other(msg@),
        }
    }
}

impl ClientFault {
    /// True when the caller may simply try again later: the server declined,
    /// or nobody answered.
    pub open spec fn is_recoverable(self) -> bool {
        self is Rejected || self is Unresponsive
    }

    /// The text shown for the error.
    pub open spec fn message(self) -> Seq<char> {
        match self {
            ClientFault::Io(e) => "I/O error: "@ + e.text,
            ClientFault::Net(e) => "Network error: "@ + e.message(),
            ClientFault::Rejected(reason) => "Connection rejected: "@ + reason,
            ClientFault::Unresponsive => "No response"@,
            ClientFault::ProtocolMismatch { got, expected } =>
                "Incompatible protocol version (got "@ + decimal_text(got as int)
                    + ", should be "@ + decimal_text(expected as int) + ")"@,
            ClientFault::Other(msg) => msg,
        }
    }

    /// The short name of the error's kind.
    pub open spec fn description(self) -> Seq<char> {
        match self {
            ClientFault::Io(e) => e.text,
            ClientFault::Net(e) => e.description(),
            ClientFault::Rejected(_) => "Connection rejected"@,
            ClientFault::Unresponsive => "No response"@,
            ClientFault::ProtocolMismatch { .. } => "Incompatible protocol version"@,
            ClientFault::Other(msg) => msg,
        }
    }
}

impl ClientError {
    /// An error that carries only a text.
    pub fn with_msg(msg: &str) -> (r: Self)
        ensures
            r@ == ClientFault::Other(msg@),
    {
        ClientError::Other(msg.to_owned())
    }

    /// True when the caller may simply try again later: the server declined,
    /// or nobody answered.
    pub fn is_recoverable(&self) -> (r: bool)
        ensures
            r == self@.is_recoverable(),
    {
        match self {
            ClientError::Rejected(_) => true,
            ClientError::Unresponsive => true,
            _ => false,
        }
    }

    /// The text shown for the error.
    pub fn message(&self) -> (r: String)
        ensures
            r@ == self@.message(),
    {
        match self {
            ClientError::Io(e) => concat("I/O error: ", e.text.as_str()),
            ClientError::Net(e) => {
                let inner = e.message();
                concat("Network error: ", inner.as_str())
            },
            ClientError::Rejected(reason) => concat("Connection rejected: ", reason.as_str()),
            ClientError::Unresponsive => "No response".to_owned(),
            ClientError::ProtocolMismatch { got, expected } => {
                let got_text = fmt_decimal(*got as i128);
                let expected_text = fmt_decimal(*expected as i128);
                let a = concat("Incompatible protocol version (got ", got_text.as_str());
                let b = concat(a.as_str(), ", should be ");
                let c = concat(b.as_str(), expected_text.as_str());
                concat(c.as_str(), ")")
            },
            ClientError::Other(msg) => msg.clone(),
        }
    }

    /// The short name of the error's kind.
    pub fn description(&self) -> (r: String)
        ensures
            r@ == self@.description(),
    {
        match self {
            ClientError::Io(e) => e.text.clone(),
            ClientError::Net(e) => e.description(),
            ClientError::Rejected(_) => "Connection rejected".to_owned(),
            ClientError::Unresponsive => "No response".to_owned(),
            ClientError::ProtocolMismatch { .. } => "Incompatible protocol version".to_owned(),
            ClientError::Other(msg) => msg.clone(),
        }
    }
}

impl From<IoError> for ClientError {
    fn from(error: IoError) -> (r: ClientError) {
        ClientError::Io(error)
    }
}

impl vstd::std_specs::convert::FromSpecImpl<IoError> for ClientError {
    open spec fn obeys_from_spec() -> bool {
        true
    }

    open spec fn from_spec(error: IoError) -> ClientError {
        ClientError::Io(error)
    }
}

impl From<NetError> for ClientError {
    fn from(error: NetError) -> (r: ClientError) {
        ClientError::Net(error)
    }
}

impl vstd::std_specs::convert::FromSpecImpl<NetError> for ClientError {
    open spec fn obeys_from_spec() -> bool {
        true
    }

    open spec fn from_spec(error: NetError) -> ClientError {
        ClientError::Net(error)
    }
}

} // verus!
