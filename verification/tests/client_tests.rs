use squirreldb::{ConnectOptions, Error};

#[test]
fn test_connect_options_default() {
    let opts = ConnectOptions::new("localhost", 8082);
    assert_eq!(opts.host, "localhost");
    assert_eq!(opts.port, 8082);
    assert!(opts.auth_token.is_none());
    assert!(opts.use_messagepack);
    assert!(opts.json_fallback);
}

#[test]
fn test_connect_options_with_auth() {
    let opts = ConnectOptions::new("localhost", 8082).with_auth("my-secret-token");

    assert_eq!(opts.host, "localhost");
    assert_eq!(opts.port, 8082);
    assert_eq!(opts.auth_token, Some("my-secret-token".to_string()));
}

#[test]
fn test_connect_options_builder_chain() {
    let opts = ConnectOptions::new("db.example.com", 9000).with_auth("token123");

    assert_eq!(opts.host, "db.example.com");
    assert_eq!(opts.port, 9000);
    assert_eq!(opts.auth_token, Some("token123".to_string()));
}

#[test]
fn test_error_display() {
    let err = Error::Connection("failed to connect".to_string());
    assert_eq!(err.to_string(), "Connection error: failed to connect");

    let err = Error::Handshake("invalid magic".to_string());
    assert_eq!(err.to_string(), "Handshake failed: invalid magic");

    let err = Error::VersionMismatch { server: 2, client: 1 };
    assert!(err.to_string().contains("server=2"));
    assert!(err.to_string().contains("client=1"));

    let err = Error::AuthFailed;
    assert_eq!(err.to_string(), "Authentication failed");

    let err = Error::Server("not found".to_string());
    assert_eq!(err.to_string(), "Server error: not found");

    let err = Error::Timeout;
    assert_eq!(err.to_string(), "Timeout");

    let err = Error::ChannelClosed;
    assert_eq!(err.to_string(), "Channel closed");
}

#[test]
fn test_error_from_io() {
    let io_err = std::io::Error::new(std::io::ErrorKind::ConnectionRefused, "refused");
    let err: Error = io_err.into();
    match err {
        Error::Io(_) => {}
        _ => panic!("Expected Io error"),
    }
}

#[test]
fn test_error_from_msgpack_encode() {
    let err = Error::Serialization("msgpack error".to_string());
    assert!(err.to_string().contains("msgpack error"));
}

#[test]
fn error_text_of_every_kind() {
    assert_eq!(
        Error::VersionMismatch { server: 200, client: 1 }.to_string(),
        "Protocol version mismatch: server=200, client=1"
    );
    assert_eq!(Error::Protocol("Message too large".to_string()).to_string(), "Protocol error: Message too large");
    assert_eq!(Error::Serialization("bad".to_string()).to_string(), "Serialization error: bad");
    let io = Error::Io(std::io::Error::new(std::io::ErrorKind::Other, "boom"));
    assert_eq!(io.to_string(), "IO error: boom");
}

#[test]
fn connect_options_address_and_flags() {
    let opts = ConnectOptions::new("db.example.com", 9000);
    assert_eq!(opts.address(), "db.example.com:9000");
    let flags = opts.flags();
    assert!(flags.messagepack);
    assert!(flags.json_fallback);
    let zero = ConnectOptions::new("h", 0);
    assert_eq!(zero.address(), "h:0");
    let top = ConnectOptions::new("h", 65535);
    assert_eq!(top.address(), "h:65535");
}

#[test]
fn an_address_is_host_and_port() {
    let opts = ConnectOptions::parse("localhost:8082").unwrap();
    assert_eq!(opts.host, "localhost");
    assert_eq!(opts.port, 8082);
    assert!(opts.auth_token.is_none());
    assert!(opts.use_messagepack);
    assert!(opts.json_fallback);
    assert_eq!(opts.address(), "localhost:8082");

    let v6 = ConnectOptions::parse("[::1]:9000").unwrap();
    assert_eq!(v6.host, "[::1]");
    assert_eq!(v6.port, 9000);
    let accented = ConnectOptions::parse("bücher.example:65535").unwrap();
    assert_eq!(accented.host, "bücher.example");
    assert_eq!(accented.port, 65535);
    assert_eq!(ConnectOptions::parse(":0").unwrap().host, "");
    assert_eq!(ConnectOptions::parse("h:+80").unwrap().port, 80);
    assert_eq!(ConnectOptions::parse("h:0080").unwrap().port, 80);
}

#[test]
fn an_address_without_a_port_is_refused() {
    assert!(ConnectOptions::parse("localhost").is_none());
    assert!(ConnectOptions::parse("").is_none());
    assert!(ConnectOptions::parse("localhost:").is_none());
    assert!(ConnectOptions::parse("localhost:http").is_none());
    assert!(ConnectOptions::parse("localhost:65536").is_none());
    assert!(ConnectOptions::parse("localhost:-1").is_none());
    assert!(ConnectOptions::parse("localhost:-0").is_none());
    assert!(ConnectOptions::parse("localhost:80 ").is_none());
    assert!(ConnectOptions::parse("localhost:99999999999999999999").is_none());
}
