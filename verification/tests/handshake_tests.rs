use squirreldb::handshake::{encode_handshake, parse_handshake_response, HANDSHAKE_RESPONSE_LEN};
use squirreldb::{ConnectOptions, Encoding, Error, ProtocolFlags};

fn response(version: u8, status: u8, encoding: u8, id: [u8; 16]) -> Vec<u8> {
    let mut bytes = b"SQRL".to_vec();
    bytes.push(version);
    bytes.push(status);
    bytes.push(encoding);
    bytes.extend_from_slice(&id);
    bytes
}

fn both() -> ProtocolFlags {
    ProtocolFlags { messagepack: true, json_fallback: true }
}

const ID: [u8; 16] = [
    0x55, 0x0e, 0x84, 0x00, 0xe2, 0x9b, 0x41, 0xd4, 0xa7, 0x16, 0x44, 0x66, 0x55, 0x44, 0x00, 0x00,
];

#[test]
fn request_without_credential() {
    let bytes = encode_handshake(&ConnectOptions::new("localhost", 8082)).unwrap();
    assert_eq!(bytes, vec![b'S', b'Q', b'R', b'L', 0x01, 0x03, 0x00, 0x00]);
}

#[test]
fn request_with_credential() {
    let opts = ConnectOptions::new("localhost", 8082).with_auth("secret");
    let bytes = encode_handshake(&opts).unwrap();
    let mut expected = vec![b'S', b'Q', b'R', b'L', 0x01, 0x03, 0x00, 0x06];
    expected.extend_from_slice(b"secret");
    assert_eq!(bytes, expected);
}

#[test]
fn request_offers_what_the_options_say() {
    let mut opts = ConnectOptions::new("localhost", 8082);
    opts.json_fallback = false;
    assert_eq!(encode_handshake(&opts).unwrap()[5], 0x01);
    opts.use_messagepack = false;
    assert_eq!(encode_handshake(&opts).unwrap()[5], 0x00);
    opts.json_fallback = true;
    assert_eq!(encode_handshake(&opts).unwrap()[5], 0x02);
}

#[test]
fn request_writes_the_credential_length_in_two_bytes() {
    let token = "x".repeat(300);
    let opts = ConnectOptions::new("localhost", 8082).with_auth(&token);
    let bytes = encode_handshake(&opts).unwrap();
    assert_eq!(&bytes[6..8], &[0x01, 0x2C]);
    assert_eq!(bytes.len(), 8 + 300);
    let longest = "y".repeat(65535);
    let opts = ConnectOptions::new("localhost", 8082).with_auth(&longest);
    let bytes = encode_handshake(&opts).unwrap();
    assert_eq!(&bytes[6..8], &[0xFF, 0xFF]);
}

#[test]
fn request_refuses_a_credential_that_is_too_long() {
    let token = "x".repeat(65536);
    let opts = ConnectOptions::new("localhost", 8082).with_auth(&token);
    assert!(matches!(encode_handshake(&opts), Err(Error::Handshake(_))));
}

#[test]
fn success_yields_the_session_that_the_peer_sent() {
    let bytes = response(0x01, 0x00, 0x01, ID);
    assert_eq!(bytes.len(), HANDSHAKE_RESPONSE_LEN);
    let session = parse_handshake_response(&bytes, both()).unwrap();
    assert_eq!(session.encoding, Encoding::MessagePack);
    assert_eq!(session.session_id, uuid::Uuid::from_bytes(ID));
    assert_eq!(session.session_id.to_string(), "550e8400-e29b-41d4-a716-446655440000");

    let json = parse_handshake_response(&response(0x01, 0x00, 0x02, [7; 16]), both()).unwrap();
    assert_eq!(json.encoding, Encoding::Json);
    assert_eq!(json.session_id.as_bytes(), &[7; 16]);
}

#[test]
fn version_mismatch_carries_both_versions() {
    let r = parse_handshake_response(&response(0x02, 0x01, 0x01, ID), both());
    assert!(matches!(r, Err(Error::VersionMismatch { server: 2, client: 1 })));
    let short = parse_handshake_response(&[b'S', b'Q', b'R', b'L', 0x09, 0x01], both());
    assert!(matches!(short, Err(Error::VersionMismatch { server: 9, client: 1 })));
    let other_version = parse_handshake_response(&response(0x03, 0x00, 0x01, ID), both());
    assert!(matches!(other_version, Err(Error::VersionMismatch { server: 3, client: 1 })));
}

#[test]
fn refused_credential_is_auth_failed() {
    let r = parse_handshake_response(&response(0x01, 0x02, 0x01, ID), both());
    assert!(matches!(r, Err(Error::AuthFailed)));
    let short = parse_handshake_response(&[b'S', b'Q', b'R', b'L', 0x01, 0x02], both());
    assert!(matches!(short, Err(Error::AuthFailed)));
}

#[test]
fn malformed_answers_are_handshake_errors() {
    let good = response(0x01, 0x00, 0x01, ID);
    assert!(matches!(parse_handshake_response(&[], both()), Err(Error::Handshake(_))));
    assert!(matches!(parse_handshake_response(&good[..5], both()), Err(Error::Handshake(_))));
    assert!(matches!(parse_handshake_response(&good[..22], both()), Err(Error::Handshake(_))));
    let mut long = good.clone();
    long.push(0);
    assert!(matches!(parse_handshake_response(&long, both()), Err(Error::Handshake(_))));
    let mut magic = good.clone();
    magic[3] = b'X';
    assert!(matches!(parse_handshake_response(&magic, both()), Err(Error::Handshake(_))));
    let mut status = good.clone();
    status[5] = 0x03;
    assert!(matches!(parse_handshake_response(&status, both()), Err(Error::Handshake(_))));
    let mut encoding = good.clone();
    encoding[6] = 0x00;
    assert!(matches!(parse_handshake_response(&encoding, both()), Err(Error::Handshake(_))));
}

#[test]
fn malformed_answers_say_what_is_wrong() {
    let why = |bytes: &[u8]| match parse_handshake_response(bytes, both()) {
        Err(Error::Handshake(why)) => why,
        _ => panic!("Expected a handshake error"),
    };
    let good = response(0x01, 0x00, 0x01, ID);
    assert_eq!(why(&good[..3]), "Response too short");
    assert_eq!(why(&good[..10]), "Response too short");
    assert_eq!(why(b"HTTP/1.1 400"), "Invalid magic");
    assert_eq!(why(&response(0x01, 0x07, 0x01, ID)), "Unknown status");
    assert_eq!(why(&response(0x01, 0x00, 0x03, ID)), "Unknown encoding");
    let mut long = good.clone();
    long.push(0);
    assert_eq!(why(&long), "Response too long");
    let offered = ProtocolFlags { messagepack: false, json_fallback: true };
    match parse_handshake_response(&good, offered) {
        Err(Error::Handshake(why)) => assert_eq!(why, "Encoding was not offered"),
        _ => panic!("Expected a handshake error"),
    }
}

#[test]
fn an_encoding_that_was_not_offered_is_refused() {
    let only_messagepack = ProtocolFlags { messagepack: true, json_fallback: false };
    let r = parse_handshake_response(&response(0x01, 0x00, 0x02, ID), only_messagepack);
    assert!(matches!(r, Err(Error::Handshake(_))));
    let ok = parse_handshake_response(&response(0x01, 0x00, 0x01, ID), only_messagepack);
    assert!(ok.is_ok());
}
