use std::path::Path;

use azbridge::preamble::{
    decode_port_name, decode_request_header, decode_response, encode_request,
    encode_response_err, encode_response_ok, ConnectionMode, PreambleError, PreambleRequest,
    PreambleResponse,
};
use azbridge::socket::{SocketLocalForwardBridge, SocketRemoteForwarder};
use azbridge::stream_pump::BUFFER_SIZE;
use azbridge::udp::{decode_datagram_length, encode_datagram, MAX_DATAGRAM_SIZE};

#[test]
fn connection_mode_try_from() {
    assert_eq!(ConnectionMode::try_from(0).unwrap(), ConnectionMode::Stream);
    assert_eq!(ConnectionMode::try_from(1).unwrap(), ConnectionMode::Datagram);
    assert!(ConnectionMode::try_from(2).is_err());
}

#[test]
fn request_encoding_matches_wire_format() {
    let req = PreambleRequest { mode: ConnectionMode::Stream, port_name: "29876".into() };
    let bytes = encode_request(&req).unwrap();
    assert_eq!(bytes, vec![1u8, 0, 0, 5, b'2', b'9', b'8', b'7', b'6']);
    let req = PreambleRequest { mode: ConnectionMode::Datagram, port_name: "29876U".into() };
    let bytes = encode_request(&req).unwrap();
    assert_eq!(bytes, vec![1u8, 0, 1, 6, b'2', b'9', b'8', b'7', b'6', b'U']);
}

#[test]
fn request_round_trip() {
    let req = PreambleRequest { mode: ConnectionMode::Datagram, port_name: "héllo".into() };
    let bytes = encode_request(&req).unwrap();
    let header: [u8; 4] = bytes[..4].try_into().unwrap();
    let (mode, len) = decode_request_header(&header).unwrap();
    assert_eq!(mode, ConnectionMode::Datagram);
    assert_eq!(len, bytes.len() - 4);
    let name = decode_port_name(bytes[4..].to_vec()).unwrap();
    assert_eq!(name, "héllo");
}

#[test]
fn request_with_long_port_name_is_refused() {
    let req = PreambleRequest { mode: ConnectionMode::Stream, port_name: "a".repeat(256) };
    assert!(matches!(encode_request(&req), Err(PreambleError::PortNameTooLong(256))));
    let req = PreambleRequest { mode: ConnectionMode::Stream, port_name: "a".repeat(255) };
    assert_eq!(encode_request(&req).unwrap().len(), 259);
}

#[test]
fn request_header_errors() {
    assert!(matches!(
        decode_request_header(&[2, 3, 0, 0]),
        Err(PreambleError::UnsupportedVersion { major: 2, minor: 3 })
    ));
    assert!(matches!(decode_request_header(&[1, 0, 5, 0]), Err(PreambleError::InvalidMode(5))));
    assert!(matches!(decode_port_name(vec![0xff, 0xfe]), Err(PreambleError::InvalidMode(0))));
}

#[test]
fn response_round_trips() {
    let ok = encode_response_ok(ConnectionMode::Datagram);
    assert_eq!(ok, vec![1, 0, 1]);
    let buf: [u8; 3] = ok.try_into().unwrap();
    assert_eq!(decode_response(&buf).unwrap(), PreambleResponse { accepted: true, mode: 1 });
    let err = encode_response_err(255);
    assert_eq!(err, vec![0, 0, 255]);
    let buf: [u8; 3] = err.try_into().unwrap();
    assert!(matches!(decode_response(&buf), Err(PreambleError::Rejected(255))));
}

#[test]
fn datagram_framing() {
    let framed = encode_datagram(b"Hello UDP!").unwrap();
    assert_eq!(framed.len(), 2 + 10);
    assert_eq!(&framed[..2], &10u16.to_be_bytes());
    assert_eq!(&framed[2..], b"Hello UDP!");
    let prefix: [u8; 2] = framed[..2].try_into().unwrap();
    assert_eq!(decode_datagram_length(&prefix), 10);
}

#[test]
fn datagram_size_limit() {
    let max = vec![7u8; MAX_DATAGRAM_SIZE];
    let framed = encode_datagram(&max).unwrap();
    assert_eq!(&framed[..2], &[0xff, 0xff]);
    let too_big = vec![0u8; MAX_DATAGRAM_SIZE + 1];
    let err = encode_datagram(&too_big).unwrap_err();
    assert_eq!(err.kind(), std::io::ErrorKind::InvalidInput);
}

#[test]
fn socket_local_forward_bridge_new() {
    let bridge = SocketLocalForwardBridge::new("/tmp/test.sock", "relay1".into(), "sock".into());
    assert_eq!(Path::new(bridge.socket_path()), Path::new("/tmp/test.sock"));
    assert_eq!(bridge.relay_name(), "relay1");
    assert_eq!(bridge.port_name(), "sock");
}

#[test]
fn socket_remote_forwarder_new() {
    let fwd = SocketRemoteForwarder::new("/var/run/app.sock", "sock".into());
    assert_eq!(Path::new(fwd.socket_path()), Path::new("/var/run/app.sock"));
    assert_eq!(fwd.port_name(), "sock");
}

#[test]
fn buffer_size_is_64kb() {
    assert_eq!(BUFFER_SIZE, 65536);
}

#[test]
fn request_with_empty_port_name() {
    let req = PreambleRequest { mode: ConnectionMode::Stream, port_name: "".into() };
    let bytes = encode_request(&req).unwrap();
    assert_eq!(bytes, vec![1u8, 0, 0, 0]);
    let header: [u8; 4] = bytes[..4].try_into().unwrap();
    assert_eq!(decode_request_header(&header).unwrap(), (ConnectionMode::Stream, 0));
    assert_eq!(decode_port_name(Vec::new()).unwrap(), "");
}

#[test]
fn empty_datagram_frame() {
    let framed = encode_datagram(b"").unwrap();
    assert_eq!(framed, vec![0u8, 0]);
    assert_eq!(decode_datagram_length(&[0, 0]), 0);
    assert_eq!(decode_datagram_length(&[0x01, 0x02]), 258);
}

#[test]
fn preamble_error_messages() {
    assert_eq!(
        PreambleError::UnsupportedVersion { major: 2, minor: 0 }.message(),
        "unsupported protocol version 2.0"
    );
    assert_eq!(PreambleError::InvalidMode(5).message(), "invalid connection mode: 5");
    assert_eq!(PreambleError::PortNameTooLong(256).message(), "port name too long: 256 bytes (max 255)");
    assert_eq!(PreambleError::Rejected(42).message(), "connection rejected with error code 42");
    let io = std::io::Error::new(std::io::ErrorKind::BrokenPipe, "pipe broken");
    assert_eq!(PreambleError::Io(io).message(), "I/O error: pipe broken");
}

#[test]
fn datagram_refusal_message() {
    let too_big = vec![0u8; MAX_DATAGRAM_SIZE + 1];
    let err = encode_datagram(&too_big).unwrap_err();
    assert_eq!(err.kind(), std::io::ErrorKind::InvalidInput);
    assert_eq!(err.to_string(), "datagram too large: 65536 bytes");
}
