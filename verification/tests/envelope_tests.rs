use chat_relay::envelope::{
    ChatMessage, Connection, Data, GroupKey, Knock, Message, Ping, PublicKey, Status,
};
use chat_relay::session::respond;

fn timestamp_of(text: &str) -> i64 {
    chrono::NaiveDateTime::parse_from_str(text, "%Y-%m-%dT%H:%M:%S")
        .unwrap()
        .and_utc()
        .timestamp()
}

fn example_public_key() -> PublicKey {
    PublicKey {
        crv: "P-384".to_string(),
        ext: true,
        key_ops: vec![],
        kty: "EC".to_string(),
        x: "Br-DF2-zNbZUrIbRcmiHw-b5QjWpOuii1KzgYQRqXvFtQrzXf410i4ir6lPBmpW0".to_string(),
        y: "_2-ErGT-IwIg-K3TQgLkeMLfbw-CQxpmGLDGgykRxpHgfnFwENRbmkDWqPPQPHgC".to_string(),
    }
}

#[test]
fn test_ping_new() {
    let ping = Ping::new(Knock::Ping);
    assert_eq!(ping.ping_type, Knock::Ping);
}

#[test]
fn test_connection_new() {
    let public_key = example_public_key();
    let connection = Connection::new(
        Status::Connected,
        "user123".to_string(),
        "user name".to_string(),
        public_key.clone(),
    );
    assert_eq!(connection.status, Status::Connected);
    assert_eq!(connection.user_id, "user123".to_string());
    assert_eq!(connection.user_name, "user name".to_string());
    assert_eq!(connection.public_key, public_key);

    let connection = Connection::new(
        Status::StayingAlive,
        "user123".to_string(),
        "user name".to_string(),
        public_key,
    );
    assert_eq!(connection.status, Status::StayingAlive);
}

#[test]
fn test_message_new() {
    let chat = ChatMessage {
        uuid: Some("123".to_string()),
        user_id: "user123".to_string(),
        cipher: "Hello encrypted cipher".to_string(),
        iv: "iv".to_string(),
        message_sent_at: Some(timestamp_of("2023-10-01T12:34:56")),
    };
    let message = Message::new(Data::ChatMessage(chat.clone()));

    assert_eq!(message.data, Data::ChatMessage(chat));
}

#[test]
fn test_chat_message_new() {
    let sent_at = timestamp_of("2023-10-01T12:34:56");
    let chat_message = ChatMessage::new(
        "uuid123".to_string(),
        "user123".to_string(),
        "ciphertext".to_string(),
        "iv123".to_string(),
        sent_at,
    );
    assert_eq!(chat_message.uuid, Some("uuid123".to_string()));
    assert_eq!(chat_message.user_id, "user123".to_string());
    assert_eq!(chat_message.cipher, "ciphertext".to_string());
    assert_eq!(chat_message.iv, "iv123".to_string());
    assert_eq!(chat_message.message_sent_at, Some(sent_at));
}

#[test]
fn test_group_key_new() {
    let creation_date = timestamp_of("2023-10-01T12:34:56");
    let group_key = GroupKey {
        encrypted_key: "some_key".to_string(),
        iv: "iv".to_string(),
        creation_date,
        for_user_id: "user123".to_string(),
        from_user_id: "user=6789".to_string(),
    };
    assert_eq!(group_key.encrypted_key, "some_key".to_string());
    assert_eq!(group_key.creation_date, timestamp_of("2023-10-01T12:34:56"));
    assert_eq!(group_key.for_user_id, "user123".to_string());
    assert_eq!(group_key.from_user_id, "user=6789".to_string());
}

#[test]
fn respond_turns_ping_into_pong() {
    let inbound = Message::new(Data::Ping(Ping::new(Knock::Ping)));
    let outbound = respond(inbound, "ignored".to_string(), 7);

    assert_eq!(outbound.data, Data::Ping(Ping { ping_type: Knock::Pong }));
}

#[test]
fn respond_turns_pong_into_pong() {
    let inbound = Message::new(Data::Ping(Ping::new(Knock::Pong)));
    let outbound = respond(inbound, "ignored".to_string(), 7);

    assert_eq!(outbound.data, Data::Ping(Ping { ping_type: Knock::Pong }));
}

#[test]
fn respond_restamps_chat_message() {
    let inbound = Message::new(Data::ChatMessage(ChatMessage {
        uuid: Some("stale-id".to_string()),
        user_id: "U".to_string(),
        cipher: "C".to_string(),
        iv: "V".to_string(),
        message_sent_at: Some(11),
    }));
    let outbound = respond(inbound, "fresh-id".to_string(), 99);

    match outbound.data {
        Data::ChatMessage(c) => {
            assert_eq!(c.uuid, Some("fresh-id".to_string()));
            assert_eq!(c.user_id, "U");
            assert_eq!(c.cipher, "C");
            assert_eq!(c.iv, "V");
            assert_eq!(c.message_sent_at, Some(99));
        }
        other => panic!("expected a chat message, got {:?}", other),
    }
}

#[test]
fn respond_passes_connection_through() {
    let connection = Connection::new(
        Status::Disconnected,
        "user123".to_string(),
        "user name".to_string(),
        example_public_key(),
    );
    let inbound = Message::new(Data::Connection(connection.clone()));
    let outbound = respond(inbound, "ignored".to_string(), 7);

    assert_eq!(outbound.data, Data::Connection(connection));
}

#[test]
fn respond_passes_group_key_through() {
    let group_key = GroupKey {
        encrypted_key: "some_key".to_string(),
        iv: "iv".to_string(),
        creation_date: timestamp_of("2023-10-01T12:34:56"),
        for_user_id: "user123".to_string(),
        from_user_id: "user=6789".to_string(),
    };
    let inbound = Message::new(Data::GroupKey(group_key.clone()));
    let outbound = respond(inbound, "ignored".to_string(), 7);

    assert_eq!(outbound.data, Data::GroupKey(group_key));
}

#[test]
fn duplicate_preserves_every_field() {
    let message = Message::new(Data::ChatMessage(ChatMessage {
        uuid: None,
        user_id: "U".to_string(),
        cipher: "C".to_string(),
        iv: "V".to_string(),
        message_sent_at: None,
    }));
    assert_eq!(message.duplicate(), message);

    let message = Message::new(Data::Connection(Connection::new(
        Status::Connected,
        "user123".to_string(),
        "user name".to_string(),
        example_public_key(),
    )));
    assert_eq!(message.duplicate(), message);
}
