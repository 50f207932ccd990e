use squirreldb::client::{expect_data, expect_pong, expect_subscribed, expect_unsubscribed, into_result};
use squirreldb::handshake::{parse_handshake_response, Session};
use squirreldb::{
    ChangeEvent, Connection, Delivery, Dispatch, Document, Encoding, Error, ProtocolFlags,
    ServerMessage,
};

fn session() -> Session {
    Session { encoding: Encoding::Json, session_id: uuid::Uuid::from_bytes([9; 16]) }
}

fn document(name: &str) -> Document {
    Document {
        id: uuid::Uuid::nil(),
        collection: "users".to_string(),
        data: serde_json::Value::from(name),
        created_at: String::new(),
        updated_at: String::new(),
    }
}

fn change(id: &str, name: &str) -> ServerMessage {
    ServerMessage::Change { id: id.to_string(), change: ChangeEvent::Insert { new: document(name) } }
}

fn pong(id: &str) -> ServerMessage {
    ServerMessage::Pong { id: id.to_string() }
}

#[test]
fn a_new_connection_holds_its_session() {
    let conn: Connection<u32> = Connection::new(session());
    assert!(conn.is_alive());
    assert_eq!(conn.pending_len(), 0);
    assert_eq!(conn.encoding(), Encoding::Json);
    assert_eq!(conn.session_id(), &uuid::Uuid::from_bytes([9; 16]));
}

#[test]
fn responses_resolve_the_request_with_their_identifier() {
    let mut conn: Connection<u32> = Connection::new(session());
    let a = conn.begin_request(1).unwrap();
    let b = conn.begin_request(2).unwrap();
    assert_ne!(a, b);
    match conn.on_message(pong(&b)) {
        Dispatch::Reply(slot, message) => {
            assert_eq!(slot, 2);
            assert_eq!(message.id(), &b);
        }
        _ => panic!("Expected a reply"),
    }
    assert!(matches!(conn.on_message(pong(&b)), Dispatch::Dropped));
    assert!(matches!(conn.on_message(pong("unknown")), Dispatch::Dropped));
    assert_eq!(conn.pending_len(), 1);
    assert!(matches!(conn.on_message(pong(&a)), Dispatch::Reply(1, _)));
    assert_eq!(conn.pending_len(), 0);
}

#[test]
fn an_abandoned_request_gets_no_late_response() {
    let mut conn: Connection<u32> = Connection::new(session());
    let a = conn.begin_request(1).unwrap();
    assert_eq!(conn.abandon(&a), Some(1));
    assert_eq!(conn.abandon(&a), None);
    assert!(matches!(conn.on_message(pong(&a)), Dispatch::Dropped));
}

#[test]
fn changes_go_to_their_subscription_and_never_to_a_request() {
    let mut conn: Connection<u32> = Connection::new(session());
    let request = conn.begin_request(1).unwrap();
    assert!(conn.open_subscription(&request));
    assert!(!conn.open_subscription(&request));
    assert!(matches!(conn.on_message(change(&request, "a")), Dispatch::Queued));
    assert!(matches!(conn.on_message(change("other", "x")), Dispatch::Dropped));
    assert_eq!(conn.pending_len(), 1);
    assert!(matches!(conn.on_message(change(&request, "b")), Dispatch::Queued));
    match conn.next_event(&request) {
        Delivery::Event(ChangeEvent::Insert { new }) => assert_eq!(new.data, "a"),
        _ => panic!("Expected the first event"),
    }
    match conn.next_event(&request) {
        Delivery::Event(ChangeEvent::Insert { new }) => assert_eq!(new.data, "b"),
        _ => panic!("Expected the second event"),
    }
    assert!(matches!(conn.next_event(&request), Delivery::Pending));
    assert!(conn.close_subscription(&request));
    assert!(matches!(conn.on_message(change(&request, "late")), Dispatch::Dropped));
    assert!(matches!(conn.next_event(&request), Delivery::Ended));
    assert!(conn.release_subscription(&request));
    assert!(!conn.release_subscription(&request));
    assert!(matches!(conn.next_event(&request), Delivery::Ended));
}

#[test]
fn losing_the_connection_resolves_everything_once() {
    let mut conn: Connection<u32> = Connection::new(session());
    let _a = conn.begin_request(1).unwrap();
    let b = conn.begin_request(2).unwrap();
    let _c = conn.begin_request(3).unwrap();
    assert!(matches!(conn.on_message(pong(&b)), Dispatch::Reply(2, _)));
    assert!(conn.open_subscription("s1"));
    assert!(conn.open_subscription("s2"));
    assert!(matches!(conn.on_message(change("s1", "queued")), Dispatch::Queued));

    assert_eq!(conn.fail(), vec![1, 3]);
    assert!(!conn.is_alive());
    assert_eq!(conn.pending_len(), 0);
    assert_eq!(conn.fail(), Vec::<u32>::new());

    assert!(matches!(conn.next_event("s1"), Delivery::Event(_)));
    assert!(matches!(conn.next_event("s1"), Delivery::Ended));
    assert!(matches!(conn.next_event("s2"), Delivery::Ended));
    assert!(matches!(conn.on_message(change("s2", "late")), Dispatch::Dropped));
    assert!(!conn.open_subscription("s3"));
    match conn.begin_request(4) {
        Err((Error::ChannelClosed, slot)) => assert_eq!(slot, 4),
        _ => panic!("Expected ChannelClosed"),
    }
}

#[test]
fn a_refused_credential_leaves_no_connection() {
    let answer = [b'S', b'Q', b'R', b'L', 0x01, 0x02];
    let offered = ProtocolFlags { messagepack: true, json_fallback: true };
    assert!(matches!(parse_handshake_response(&answer, offered), Err(Error::AuthFailed)));
}

#[test]
fn what_a_response_means() {
    let error = || ServerMessage::Error { id: "1".to_string(), error: "not found".to_string() };
    let result = || ServerMessage::Result { id: "1".to_string(), data: serde_json::Value::from(5) };
    let subscribed = || ServerMessage::Subscribed { id: "s".to_string() };
    let unsubscribed = || ServerMessage::Unsubscribed { id: "s".to_string() };

    assert!(expect_pong(pong("1")).is_ok());
    assert!(matches!(expect_pong(error()), Err(Error::Server(why)) if why == "not found"));
    assert!(matches!(expect_pong(result()), Err(Error::Protocol(_))));

    assert_eq!(expect_data(result()).unwrap(), serde_json::Value::from(5));
    assert!(matches!(expect_data(error()), Err(Error::Server(why)) if why == "not found"));
    assert!(matches!(expect_data(pong("1")), Err(Error::Protocol(_))));

    assert_eq!(expect_subscribed(subscribed()).unwrap(), "s");
    assert!(matches!(expect_subscribed(error()), Err(Error::Server(_))));
    assert!(matches!(expect_subscribed(unsubscribed()), Err(Error::Protocol(_))));

    assert!(expect_unsubscribed(unsubscribed()).is_ok());
    assert!(matches!(expect_unsubscribed(error()), Err(Error::Server(_))));
    assert!(matches!(expect_unsubscribed(subscribed()), Err(Error::Protocol(_))));

    assert!(matches!(into_result(error()), Err(Error::Server(why)) if why == "not found"));
    assert!(matches!(into_result(pong("1")), Ok(ServerMessage::Pong { .. })));
}

#[test]
fn unsubscribing_is_answered_under_the_identifier_of_the_subscription() {
    let mut conn: Connection<u32> = Connection::new(session());
    let id = conn.begin_request(1).unwrap();
    let subscribed = ServerMessage::Subscribed { id: id.clone() };
    let reply = match conn.on_message(subscribed) {
        Dispatch::Reply(1, message) => message,
        _ => panic!("Expected the reply to the subscribe request"),
    };
    let subscription = expect_subscribed(reply).unwrap();
    assert_eq!(subscription, id);
    assert!(conn.open_subscription(&subscription));
    assert!(matches!(conn.on_message(change(&subscription, "a")), Dispatch::Queued));

    assert!(conn.begin_request_as(&subscription, 2).is_ok());
    assert!(matches!(conn.begin_request_as(&subscription, 3), Err((Error::Protocol(_), 3))));
    assert!(matches!(conn.begin_request_as("never given out", 4), Err((Error::Protocol(_), 4))));
    let unsubscribed = ServerMessage::Unsubscribed { id: subscription.clone() };
    let reply = match conn.on_message(unsubscribed) {
        Dispatch::Reply(2, message) => message,
        _ => panic!("Expected the reply to the unsubscribe request"),
    };
    assert!(expect_unsubscribed(reply).is_ok());
    assert!(conn.close_subscription(&subscription));
    assert!(matches!(conn.next_event(&subscription), Delivery::Event(_)));
    assert!(matches!(conn.next_event(&subscription), Delivery::Ended));

    conn.fail();
    assert!(matches!(conn.begin_request_as(&subscription, 5), Err((Error::ChannelClosed, 5))));
}

#[test]
fn a_session_from_connect_to_change() {
    let mut answer = b"SQRL".to_vec();
    answer.extend_from_slice(&[0x01, 0x00, 0x02]);
    answer.extend_from_slice(&[0xAB; 16]);
    let offered = ProtocolFlags { messagepack: true, json_fallback: true };
    let session = parse_handshake_response(&answer, offered).unwrap();
    let mut conn: Connection<&str> = Connection::new(session);
    assert_eq!(conn.session_id().as_bytes(), &[0xAB; 16]);

    let ping = conn.begin_request("ping").unwrap();
    match conn.on_message(pong(&ping)) {
        Dispatch::Reply("ping", message) => assert!(expect_pong(message).is_ok()),
        _ => panic!("Expected the reply to the ping"),
    }

    let insert = conn.begin_request("insert").unwrap();
    let mut alice = serde_json::Map::new();
    alice.insert("name".to_string(), serde_json::Value::from("Alice"));
    let created = ServerMessage::Result { id: insert.clone(), data: serde_json::Value::Object(alice) };
    match conn.on_message(created) {
        Dispatch::Reply("insert", message) => {
            assert_eq!(expect_data(message).unwrap()["name"], "Alice");
        }
        _ => panic!("Expected the reply to the insert"),
    }

    let update = conn.begin_request("update").unwrap();
    assert_ne!(update, insert);
    let mut alice = serde_json::Map::new();
    alice.insert("name".to_string(), serde_json::Value::from("Alice2"));
    let updated = ServerMessage::Result { id: update.clone(), data: serde_json::Value::Object(alice) };
    match conn.on_message(updated) {
        Dispatch::Reply("update", message) => {
            assert_eq!(expect_data(message).unwrap()["name"], "Alice2");
        }
        _ => panic!("Expected the reply to the update"),
    }

    let subscribe = conn.begin_request("subscribe").unwrap();
    let subscription = match conn.on_message(ServerMessage::Subscribed { id: subscribe.clone() }) {
        Dispatch::Reply("subscribe", message) => expect_subscribed(message).unwrap(),
        _ => panic!("Expected the reply to the subscribe request"),
    };
    assert!(conn.open_subscription(&subscription));
    assert!(matches!(conn.next_event(&subscription), Delivery::Pending));
    assert!(matches!(conn.on_message(change(&subscription, "Bob")), Dispatch::Queued));
    match conn.next_event(&subscription) {
        Delivery::Event(ChangeEvent::Insert { new }) => {
            assert_eq!(new.collection, "users");
            assert_eq!(new.data, "Bob");
        }
        _ => panic!("Expected the insert"),
    }
}
