use squirreldb::cache::commands::{
    expire_command, flag_reply, incrby_command, info_reply, integer_reply, keys_reply,
    mget_command, mget_reply, mset_command, ok_reply, pong_reply, reply_or_error, set_command,
    ttl_reply,
};
use squirreldb::cache::{parse_resp, CacheError, CacheOptions, RespValue};

fn simple(s: &str) -> RespValue {
    RespValue::SimpleString(s.to_string())
}

fn bulk(s: &str) -> RespValue {
    RespValue::BulkString(Some(s.to_string()))
}

#[test]
fn requests_on_the_wire() {
    assert_eq!(set_command("k", "v", None), b"*3\r\n$3\r\nSET\r\n$1\r\nk\r\n$1\r\nv\r\n");
    assert_eq!(
        set_command("k", "v", Some(60)),
        b"*5\r\n$3\r\nSET\r\n$1\r\nk\r\n$1\r\nv\r\n$2\r\nEX\r\n$2\r\n60\r\n"
    );
    assert_eq!(expire_command("k", 3600), b"*3\r\n$6\r\nEXPIRE\r\n$1\r\nk\r\n$4\r\n3600\r\n");
    assert_eq!(incrby_command("k", -5), b"*3\r\n$6\r\nINCRBY\r\n$1\r\nk\r\n$2\r\n-5\r\n");
    assert_eq!(mget_command(&["a", "bc"]), b"*3\r\n$4\r\nMGET\r\n$1\r\na\r\n$2\r\nbc\r\n");
    assert_eq!(mget_command(&[]), b"*1\r\n$4\r\nMGET\r\n");
    assert_eq!(
        mset_command(&[("a", "1"), ("b", "22")]),
        b"*5\r\n$4\r\nMSET\r\n$1\r\na\r\n$1\r\n1\r\n$1\r\nb\r\n$2\r\n22\r\n"
    );
}

#[test]
fn lengths_count_bytes_not_characters() {
    assert_eq!(set_command("k", "é", None), "*3\r\n$3\r\nSET\r\n$1\r\nk\r\n$2\r\né\r\n".as_bytes());
    let long = "x".repeat(12);
    let mut expected = b"*3\r\n$3\r\nSET\r\n$1\r\nk\r\n$12\r\n".to_vec();
    expected.extend_from_slice(long.as_bytes());
    expected.extend_from_slice(b"\r\n");
    assert_eq!(set_command("k", &long, None), expected);
}

#[test]
fn the_address_of_the_server() {
    assert_eq!(CacheOptions::default().address(), "localhost:6379");
    let opts = CacheOptions { host: "10.0.0.1".to_string(), port: 7 };
    assert_eq!(opts.address(), "10.0.0.1:7");
}

#[test]
fn an_error_reply_is_a_server_error() {
    let r = reply_or_error(RespValue::Error("ERR no".to_string()));
    assert!(matches!(r, Err(CacheError::Server(why)) if why == "ERR no"));
    assert!(matches!(reply_or_error(simple("OK")), Ok(RespValue::SimpleString(_))));
}

#[test]
fn replies_of_the_simple_commands() {
    assert!(ok_reply(&simple("OK"), "SET").is_ok());
    assert!(matches!(ok_reply(&simple("ok"), "SET"), Err(CacheError::Protocol(why)) if why == "SET did not return OK"));
    assert!(matches!(ok_reply(&bulk("OK"), "MSET"), Err(CacheError::Protocol(why)) if why == "MSET did not return OK"));
    assert!(flag_reply(&RespValue::Integer(1)));
    assert!(flag_reply(&RespValue::Integer(3)));
    assert!(!flag_reply(&RespValue::Integer(0)));
    assert!(!flag_reply(&RespValue::Integer(-1)));
    assert!(!flag_reply(&simple("1")));
    assert_eq!(ttl_reply(&RespValue::Integer(-1)), -1);
    assert_eq!(ttl_reply(&RespValue::Integer(30)), 30);
    assert_eq!(ttl_reply(&simple("30")), -2);
    assert_eq!(integer_reply(&RespValue::Integer(8), "INCR").unwrap(), 8);
    assert!(matches!(
        integer_reply(&simple("8"), "INCR"),
        Err(CacheError::Protocol(why)) if why == "INCR did not return integer"
    ));
    assert!(pong_reply(&simple("PONG")).is_ok());
    assert!(matches!(
        pong_reply(&simple("OK")),
        Err(CacheError::Protocol(why)) if why == "PING did not return PONG"
    ));
    assert!(pong_reply(&bulk("PONG")).is_err());
}

#[test]
fn replies_that_list() {
    let reply = RespValue::Array(Some(vec![bulk("a"), RespValue::Integer(1), simple("b"), RespValue::BulkString(None)]));
    assert_eq!(keys_reply(&reply), vec!["a".to_string(), "b".to_string()]);
    assert_eq!(keys_reply(&RespValue::Array(None)), Vec::<String>::new());
    assert_eq!(keys_reply(&simple("a")), Vec::<String>::new());
    assert_eq!(
        mget_reply(&reply, 4),
        vec![Some("a".to_string()), None, Some("b".to_string()), None]
    );
    assert_eq!(mget_reply(&RespValue::Array(None), 3), vec![None, None, None]);
    assert_eq!(mget_reply(&simple("x"), 0), Vec::<Option<String>>::new());
}

#[test]
fn the_report_of_the_server() {
    let report = "# Server\r\nversion:7.0\r\nmode:standalone\r\n\r\n# Keys\nurl:http://x:1\nnoise\nlast:1";
    let entries = info_reply(&bulk(report)).unwrap();
    assert_eq!(
        entries,
        vec![
            ("version".to_string(), "7.0".to_string()),
            ("mode".to_string(), "standalone".to_string()),
            ("url".to_string(), "http://x:1".to_string()),
            ("last".to_string(), "1".to_string()),
        ]
    );
    assert_eq!(info_reply(&simple(":only")).unwrap(), vec![(String::new(), "only".to_string())]);
    assert!(info_reply(&simple("")).unwrap().is_empty());
    assert!(matches!(
        info_reply(&RespValue::Integer(1)),
        Err(CacheError::Protocol(why)) if why == "INFO did not return string"
    ));
}

#[test]
fn replies_that_are_not_whole() {
    assert!(matches!(parse_resp(b""), Ok(None)));
    assert!(matches!(parse_resp(b"+OK"), Ok(None)));
    assert!(matches!(parse_resp(b"$5\r\nhel"), Ok(None)));
    assert!(matches!(parse_resp(b"$5\r\nhello\r"), Ok(None)));
    assert!(matches!(parse_resp(b"*2\r\n:1\r\n"), Ok(None)));
    assert!(matches!(parse_resp(b"*2\r\n:1\r\n:2"), Ok(None)));
}

#[test]
fn replies_that_are_malformed() {
    let why = |input: &[u8]| match parse_resp(input) {
        Err(CacheError::Protocol(why)) => why,
        _ => panic!("Expected a protocol error"),
    };
    assert_eq!(why(b"\r\n"), "Empty response line");
    assert_eq!(why(b"\n"), "Empty response line");
    assert_eq!(why(b"?what\r\n"), "Unknown RESP prefix: ?");
    assert_eq!(why(b":12x\r\n"), "Invalid integer: 12x");
    assert_eq!(why(b":\r\n"), "Invalid integer: ");
    assert_eq!(why(b"$abc\r\n"), "Invalid bulk string length: abc");
    assert_eq!(why(b"*x\r\n"), "Invalid array length: x");
    assert_eq!(why(b"$2\r\n\xff\xfe\r\n"), "Invalid UTF-8 in bulk string");
    assert_eq!(why(b"+\xff\r\n"), "Invalid UTF-8 in response line");
    assert_eq!(why(b":\xff\r\n"), "Invalid integer: \u{FFFD}");
    assert_eq!(why(b"*2\r\n:1\r\n?\r\n"), "Unknown RESP prefix: ?");
}

#[test]
fn replies_of_every_kind() {
    let parse = |input: &[u8]| parse_resp(input).unwrap().unwrap();
    assert!(matches!(parse(b"+\r\n"), (RespValue::SimpleString(s), 3) if s.is_empty()));
    assert!(matches!(parse(b"+OK\n"), (RespValue::SimpleString(s), 4) if s == "OK"));
    assert!(matches!(parse(b"+a\r\r\n"), (RespValue::SimpleString(s), 5) if s == "a\r"));
    assert!(matches!(parse(b":-7\r\nrest"), (RespValue::Integer(-7), 5)));
    assert!(matches!(parse(b"$0\r\n\r\n"), (RespValue::BulkString(Some(s)), 6) if s.is_empty()));
    assert!(matches!(parse(b"$3\r\na\r\nXY"), (RespValue::BulkString(Some(s)), 9) if s == "a\r\n"));
    assert!(matches!(parse(b"$-1\r\n"), (RespValue::BulkString(None), 5)));
    assert!(matches!(parse(b"*-1\r\n"), (RespValue::Array(None), 5)));
    assert!(matches!(parse(b"*0\r\n"), (RespValue::Array(Some(items)), 4) if items.is_empty()));
    let (nested, used) = parse(b"*2\r\n*1\r\n+a\r\n$2\r\n\xc3\xa9\r\n");
    assert_eq!(used, 20);
    let items = nested.as_array().unwrap();
    assert_eq!(items[0].as_array().unwrap()[0].as_string(), Some("a".to_string()));
    assert_eq!(items[1].as_string(), Some("é".to_string()));
    assert_eq!(RespValue::Integer(5).as_string(), None);
    assert_eq!(RespValue::BulkString(None).as_string(), None);
    assert_eq!(simple("5").as_integer(), None);
    assert!(simple("5").as_array().is_none());
    assert!(RespValue::Array(None).as_array().is_none());
    assert!(!bulk("OK").is_ok());
    let copy = nested.clone();
    assert_eq!(copy.as_array().unwrap().len(), 2);
}

#[test]
fn errors_as_text() {
    assert_eq!(CacheError::Connection("refused".to_string()).to_string(), "Connection error: refused");
    assert_eq!(CacheError::Protocol("bad".to_string()).to_string(), "Protocol error: bad");
    assert_eq!(CacheError::Server("ERR".to_string()).to_string(), "Server error: ERR");
    let io = std::io::Error::new(std::io::ErrorKind::UnexpectedEof, "early end");
    let e: CacheError = io.into();
    assert!(matches!(e, CacheError::Io(_)));
    assert_eq!(e.to_string(), "IO error: early end");
}

#[test]
fn the_lines_of_a_report() {
    let pairs = |report: &str| info_reply(&bulk(report)).unwrap();
    let one = |k: &str, v: &str| (k.to_string(), v.to_string());
    assert_eq!(pairs("k:v"), vec![one("k", "v")]);
    assert_eq!(pairs("k:v\n"), vec![one("k", "v")]);
    assert_eq!(pairs("k:v\r\n"), vec![one("k", "v")]);
    assert_eq!(pairs("k:v\r"), vec![one("k", "v\r")]);
    assert_eq!(pairs("k:v\r\r\n"), vec![one("k", "v\r")]);
    assert_eq!(pairs("\n\nk:v\n\n"), vec![one("k", "v")]);
    assert_eq!(pairs("a:1\nb:2"), vec![one("a", "1"), one("b", "2")]);
    assert_eq!(pairs("a:1\rb:2"), vec![one("a", "1\rb:2")]);
    assert_eq!(pairs("#a:1\n #b:2"), vec![one(" #b", "2")]);
    assert_eq!(pairs("a::\n:"), vec![one("a", ":"), one("", "")]);
    assert_eq!(pairs("é:ü\nk:"), vec![one("é", "ü"), one("k", "")]);
    assert_eq!(pairs("\r\n"), Vec::<(String, String)>::new());
}
