use chat_relay::envelope::{ChatMessage, Data, Knock, Message, Ping};
use chat_relay::hub::ChatServer;
use chat_relay::session::{Session, SessionAction, SessionEvent, SessionState};

/// Performs a session's actions against the hub and delivers broadcasts
/// into per-capability inboxes, the way the surrounding server would.
fn perform(
    hub: &mut ChatServer,
    actions: Vec<SessionAction>,
    inboxes: &mut Vec<Vec<Message>>,
) {
    for action in actions {
        for (capability, copy) in hub.submit(action) {
            inboxes[capability as usize].push(copy);
        }
    }
}

fn chat_frame(user_id: &str, cipher: &str, iv: &str) -> SessionEvent {
    SessionEvent::Text(Some(Message::new(Data::ChatMessage(ChatMessage {
        uuid: None,
        user_id: user_id.to_string(),
        cipher: cipher.to_string(),
        iv: iv.to_string(),
        message_sent_at: None,
    }))))
}

#[test]
fn chat_broadcast_reaches_both_members() {
    let mut hub = ChatServer::new();
    let mut inboxes: Vec<Vec<Message>> = vec![vec![], vec![], vec![]];

    let mut session_a = Session::new("room-1".to_string(), "A".to_string(), 1);
    let mut session_b = Session::new("room-1".to_string(), "B".to_string(), 2);
    let opened_a = session_a.handle(SessionEvent::Opened);
    perform(&mut hub, opened_a, &mut inboxes);
    let opened_b = session_b.handle(SessionEvent::Opened);
    perform(&mut hub, opened_b, &mut inboxes);
    assert_eq!(session_a.state, SessionState::Open);
    assert_eq!(session_b.state, SessionState::Open);

    let sent = session_a.handle(chat_frame("A", "c1", "v1"));
    perform(&mut hub, sent, &mut inboxes);

    assert_eq!(inboxes[1].len(), 1);
    assert_eq!(inboxes[2].len(), 1);
    assert_eq!(inboxes[1][0], inboxes[2][0]);
    match &inboxes[1][0].data {
        Data::ChatMessage(c) => {
            assert_eq!(c.user_id, "A");
            assert_eq!(c.cipher, "c1");
            assert_eq!(c.iv, "v1");
            let fresh = c.uuid.as_ref().expect("a fresh identifier must be assigned");
            assert_eq!(fresh.len(), 36);
            assert!(c.message_sent_at.is_some());
        }
        other => panic!("expected a chat message, got {:?}", other),
    }
}

#[test]
fn broadcast_never_crosses_rooms() {
    let mut hub = ChatServer::new();
    let mut inboxes: Vec<Vec<Message>> = vec![vec![], vec![], vec![], vec![]];

    let mut session_a = Session::new("room-1".to_string(), "A".to_string(), 1);
    let mut session_b = Session::new("room-1".to_string(), "B".to_string(), 2);
    let mut session_c = Session::new("room-2".to_string(), "C".to_string(), 3);
    let opened = session_a.handle(SessionEvent::Opened);
    perform(&mut hub, opened, &mut inboxes);
    let opened = session_b.handle(SessionEvent::Opened);
    perform(&mut hub, opened, &mut inboxes);
    let opened = session_c.handle(SessionEvent::Opened);
    perform(&mut hub, opened, &mut inboxes);

    let sent = session_a.handle(chat_frame("A", "c1", "v1"));
    perform(&mut hub, sent, &mut inboxes);

    assert_eq!(inboxes[1].len(), 1);
    assert_eq!(inboxes[2].len(), 1);
    assert!(inboxes[3].is_empty());
}

#[test]
fn broadcast_after_disconnect_skips_the_gone_member() {
    let mut hub = ChatServer::new();
    let mut inboxes: Vec<Vec<Message>> = vec![vec![], vec![], vec![]];

    let mut session_a = Session::new("room-1".to_string(), "A".to_string(), 1);
    let mut session_b = Session::new("room-1".to_string(), "B".to_string(), 2);
    let opened = session_a.handle(SessionEvent::Opened);
    perform(&mut hub, opened, &mut inboxes);
    let opened = session_b.handle(SessionEvent::Opened);
    perform(&mut hub, opened, &mut inboxes);

    let closed = session_a.handle(SessionEvent::TransportClosed);
    perform(&mut hub, closed, &mut inboxes);
    assert_eq!(session_a.state, SessionState::Closed);

    let sent = session_b.handle(chat_frame("B", "c2", "v2"));
    perform(&mut hub, sent, &mut inboxes);

    assert!(inboxes[1].is_empty());
    assert_eq!(inboxes[2].len(), 1);
}

#[test]
fn connect_is_deduplicated_and_disconnect_is_idempotent() {
    let mut hub = ChatServer::new();
    let room = "room-1".to_string();
    let user = "A".to_string();

    hub.connect(&room, &user, 1);
    hub.connect(&room, &user, 1);
    let probe = Message::new(Data::Ping(Ping::new(Knock::Ping)));
    let deliveries = hub.broadcast(&room, &probe);
    assert_eq!(deliveries.len(), 1);
    assert_eq!(deliveries[0].0, 1);

    hub.disconnect(&room, &user);
    hub.disconnect(&room, &user);
    let deliveries = hub.broadcast(&room, &probe);
    assert!(deliveries.is_empty());
}

#[test]
fn disconnect_removes_every_entry_of_the_user() {
    let mut hub = ChatServer::new();
    let room = "room-1".to_string();

    hub.connect(&room, &"A".to_string(), 1);
    hub.connect(&room, &"A".to_string(), 2);
    hub.connect(&room, &"B".to_string(), 3);
    hub.disconnect(&room, &"A".to_string());

    let probe = Message::new(Data::Ping(Ping::new(Knock::Ping)));
    let deliveries = hub.broadcast(&room, &probe);
    assert_eq!(deliveries.len(), 1);
    assert_eq!(deliveries[0].0, 3);
}

#[test]
fn broadcast_to_unknown_room_is_a_no_op() {
    let hub = ChatServer::new();
    let probe = Message::new(Data::Ping(Ping::new(Knock::Ping)));
    let deliveries = hub.broadcast(&"nowhere".to_string(), &probe);
    assert!(deliveries.is_empty());
}

#[test]
fn ping_is_answered_with_a_pong_broadcast() {
    let mut hub = ChatServer::new();
    let mut inboxes: Vec<Vec<Message>> = vec![vec![], vec![], vec![]];

    let mut session_a = Session::new("room-1".to_string(), "A".to_string(), 1);
    let mut session_b = Session::new("room-1".to_string(), "B".to_string(), 2);
    let opened = session_a.handle(SessionEvent::Opened);
    perform(&mut hub, opened, &mut inboxes);
    let opened = session_b.handle(SessionEvent::Opened);
    perform(&mut hub, opened, &mut inboxes);

    let probe = SessionEvent::Text(Some(Message::new(Data::Ping(Ping::new(Knock::Ping)))));
    let sent = session_a.handle(probe);
    perform(&mut hub, sent, &mut inboxes);

    assert_eq!(inboxes[1].len(), 1);
    assert_eq!(inboxes[2].len(), 1);
    assert_eq!(inboxes[1][0].data, Data::Ping(Ping { ping_type: Knock::Pong }));
}

#[test]
fn undecodable_frame_is_dropped_and_session_stays_open() {
    let mut session = Session::new("room-1".to_string(), "A".to_string(), 1);
    let _ = session.handle(SessionEvent::Opened);

    let actions = session.handle(SessionEvent::Text(None));

    assert!(actions.is_empty());
    assert_eq!(session.state, SessionState::Open);
}

#[test]
fn binary_frame_is_echoed_to_the_same_socket_only() {
    let mut session = Session::new("room-1".to_string(), "A".to_string(), 1);
    let _ = session.handle(SessionEvent::Opened);

    let actions = session.handle(SessionEvent::Binary(vec![1, 2, 3]));

    assert_eq!(actions.len(), 1);
    match &actions[0] {
        SessionAction::EchoBinary(bytes) => assert_eq!(bytes, &vec![1, 2, 3]),
        other => panic!("expected a binary echo, got another action: {}", kind_of(other)),
    }
}

#[test]
fn transport_ping_is_answered_on_the_same_socket() {
    let mut session = Session::new("room-1".to_string(), "A".to_string(), 1);
    let _ = session.handle(SessionEvent::Opened);

    let actions = session.handle(SessionEvent::TransportPing(vec![9]));

    assert_eq!(actions.len(), 1);
    match &actions[0] {
        SessionAction::TransportPong(bytes) => assert_eq!(bytes, &vec![9]),
        other => panic!("expected a transport pong, got another action: {}", kind_of(other)),
    }
}

fn kind_of(action: &SessionAction) -> &'static str {
    match action {
        SessionAction::Connect { .. } => "connect",
        SessionAction::Disconnect { .. } => "disconnect",
        SessionAction::Broadcast { .. } => "broadcast",
        SessionAction::EchoBinary(_) => "binary echo",
        SessionAction::TransportPong(_) => "transport pong",
    }
}
