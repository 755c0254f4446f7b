use quake_net::error::{ClientError, IoError, IoErrorKind, NetError};

#[test]
fn net_error_with_msg_carries_the_text() {
    let error = NetError::with_msg("something broke");
    assert_eq!(error, NetError::Other("something broke".to_string()));
    assert_eq!(error.message(), "something broke");
    assert_eq!(error.description(), "something broke");
    assert!(error.is_malformed());
}

#[test]
fn net_error_codes_are_shown_in_upper_case_hex() {
    assert_eq!(NetError::InvalidRequest(0).message(), "Invalid request code: 0");
    assert_eq!(NetError::InvalidRequest(10).message(), "Invalid request code: A");
    assert_eq!(NetError::InvalidRequest(0x1f).message(), "Invalid request code: 1F");
    assert_eq!(NetError::InvalidResponse(0x81).message(), "Invalid response code: 81");
    assert_eq!(NetError::InvalidResponse(255).message(), "Invalid response code: FF");
    assert_eq!(NetError::InvalidRequest(7).description(), "Invalid request code");
    assert_eq!(NetError::InvalidResponse(7).description(), "Invalid response code");
}

#[test]
fn net_error_for_data_and_endpoint() {
    let data = NetError::invalid_data("bad length");
    assert_eq!(data, NetError::InvalidData("bad length".to_string()));
    assert_eq!(data.message(), "Invalid data: bad length");
    assert_eq!(data.description(), "Invalid data");
    assert!(data.is_malformed());

    let io = NetError::from(IoError::new(IoErrorKind::Other, "connection refused"));
    assert_eq!(io.message(), "I/O error: connection refused");
    assert_eq!(io.description(), "connection refused");
    assert!(!io.is_malformed());
    assert!(NetError::InvalidRequest(1).is_malformed());
    assert!(NetError::InvalidResponse(1).is_malformed());
}

#[test]
fn io_error_kinds_that_are_timeouts() {
    assert!(IoError::new(IoErrorKind::TimedOut, "t").is_timeout());
    assert!(IoError::new(IoErrorKind::WouldBlock, "w").is_timeout());
    assert!(!IoError::new(IoErrorKind::Other, "o").is_timeout());
    let e = IoError::new(IoErrorKind::Other, "text");
    assert_eq!(e.kind, IoErrorKind::Other);
    assert_eq!(e.text, "text");
}

#[test]
fn client_error_texts() {
    assert_eq!(ClientError::with_msg("oops"), ClientError::Other("oops".to_string()));
    assert_eq!(ClientError::with_msg("oops").message(), "oops");
    assert_eq!(ClientError::with_msg("oops").description(), "oops");
    assert_eq!(ClientError::Unresponsive.message(), "No response");
    assert_eq!(ClientError::Unresponsive.description(), "No response");
    let rejected = ClientError::Rejected("Server is full".to_string());
    assert_eq!(rejected.message(), "Connection rejected: Server is full");
    assert_eq!(rejected.description(), "Connection rejected");
    let io = ClientError::from(IoError::new(IoErrorKind::Other, "broken pipe"));
    assert_eq!(io.message(), "I/O error: broken pipe");
    assert_eq!(io.description(), "broken pipe");
    let net = ClientError::from(NetError::InvalidResponse(0xAB));
    assert_eq!(net, ClientError::Net(NetError::InvalidResponse(0xAB)));
    assert_eq!(net.message(), "Network error: Invalid response code: AB");
    assert_eq!(net.description(), "Invalid response code");
}

#[test]
fn protocol_mismatch_names_both_versions() {
    let error = ClientError::ProtocolMismatch { got: 14, expected: 15 };
    assert_eq!(error.message(), "Incompatible protocol version (got 14, should be 15)");
    assert_eq!(error.description(), "Incompatible protocol version");
    let error = ClientError::ProtocolMismatch { got: -1, expected: i32::MIN };
    assert_eq!(
        error.message(),
        "Incompatible protocol version (got -1, should be -2147483648)"
    );
    let error = ClientError::ProtocolMismatch { got: 0, expected: i32::MAX };
    assert_eq!(error.message(), "Incompatible protocol version (got 0, should be 2147483647)");
}

#[test]
fn only_rejection_and_silence_are_recoverable() {
    assert!(ClientError::Unresponsive.is_recoverable());
    assert!(ClientError::Rejected(String::new()).is_recoverable());
    assert!(!ClientError::with_msg("x").is_recoverable());
    assert!(!ClientError::ProtocolMismatch { got: 1, expected: 2 }.is_recoverable());
    assert!(!ClientError::Net(NetError::InvalidResponse(1)).is_recoverable());
    assert!(!ClientError::Io(IoError::new(IoErrorKind::TimedOut, "t")).is_recoverable());
}

#[test]
fn concat_joins_two_texts() {
    assert_eq!(quake_net::text::concat("ab", "cd"), "abcd");
    assert_eq!(quake_net::text::concat("", ""), "");
}
