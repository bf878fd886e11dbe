//! The per-connection protocol state machine. One session owns one
//! transport; it decides, for each inbound event, which registry operation
//! or outbound frame follows, and tracks its own lifecycle state.
//!
//! Decoding a text frame happens at the transport boundary; the session is
//! handed the decoded envelope, or nothing when the frame did not decode
//! (such a frame is dropped silently and the connection stays alive).

use vstd::prelude::*;

use crate::Capability;
use crate::envelope::{ChatMessage, ChatMessageView, Data, DataView, Knock, Message, MessageView, Ping};

verus! {

/// Relies on `uuid::Uuid::new_v4` and its `Display` form: a freshly drawn
/// version-4 identifier rendered as 36 characters (32 lowercase hex digits
/// and 4 hyphens). Nothing is assumed about which identifier comes back.
#[verifier::external_body]
fn fresh_identifier() -> (r: String)
    ensures
        r@.len() == 36,
{
    uuid::Uuid::new_v4().to_string()
}

/// Relies on `chrono::Utc::now`; nothing is promised of the clock's value.
#[verifier::external_body]
fn current_timestamp() -> (r: i64) {
    chrono::Utc::now().timestamp()
}

/// What the session answers to one decoded inbound envelope: a chat message
/// is re-stamped with a fresh identifier and the current time (whatever the
/// inbound frame carried in those two fields is discarded), a ping turns
/// into a pong, and connection and group-key payloads pass through
/// unchanged.
pub open spec fn response_view(m: MessageView, fresh_uuid: Seq<char>, now: i64) -> MessageView {
    match m.data {
        DataView::ChatMessage(c) => MessageView {
            data: DataView::ChatMessage(ChatMessageView {
                uuid: Some(fresh_uuid),
                user_id: c.user_id,
                cipher: c.cipher,
                iv: c.iv,
                message_sent_at: Some(now),
            }),
        },
        DataView::Connection(_) => m,
        DataView::GroupKey(_) => m,
        DataView::Ping(_) => MessageView { data: DataView::Ping(Ping { ping_type: Knock::Pong }) },
    }
}

/// Builds the outbound envelope for one decoded inbound envelope, stamping
/// a chat message with the given identifier and timestamp.
pub fn respond(message: Message, fresh_uuid: String, now: i64) -> (r: Message)
    ensures
        r@ == response_view(message@, fresh_uuid@, now),
{
    match message.data {
        Data::ChatMessage(c) => Message::new(Data::ChatMessage(ChatMessage::new(
            fresh_uuid,
            c.user_id,
            c.cipher,
            c.iv,
            now,
        ))),
        Data::Connection(c) => Message { data: Data::Connection(c) },
        Data::GroupKey(g) => Message { data: Data::GroupKey(g) },
        Data::Ping(_) => Message::new(Data::Ping(Ping::new(Knock::Pong))),
    }
}

/// An inbound ping always yields a pong envelope and no other variant.
pub proof fn lemma_ping_yields_pong(m: MessageView, fresh_uuid: Seq<char>, now: i64)
    requires
        m.data is Ping,
    ensures
        response_view(m, fresh_uuid, now).data == DataView::Ping(Ping { ping_type: Knock::Pong }),
{
}

/// An inbound chat message is answered with a chat message that keeps the
/// sender's user identifier, cipher and iv, while the identifier and the
/// timestamp are always the freshly supplied ones, whatever values the
/// inbound frame carried.
pub proof fn lemma_chat_message_restamped(m: MessageView, fresh_uuid: Seq<char>, now: i64)
    requires
        m.data is ChatMessage,
    ensures
        response_view(m, fresh_uuid, now).data matches DataView::ChatMessage(r)
            && m.data matches DataView::ChatMessage(c)
            && r.user_id == c.user_id
            && r.cipher == c.cipher
            && r.iv == c.iv
            && r.uuid == Some(fresh_uuid)
            && r.message_sent_at == Some(now),
{
}

/// The lifecycle of one connection session. `Closing` covers the window in
/// which termination is initiated but deregistration has not happened yet.
#[derive(Debug, Clone, Copy, PartialEq, Eq, Structural)]
pub enum SessionState {
    Connecting,
    Open,
    Closing,
    Closed,
}

/// What arrives at a session from its transport. A `Text` event carries the
/// decoded envelope, or nothing when the frame did not decode.
pub enum SessionEvent {
    Opened,
    Text(Option<Message>),
    Binary(Vec<u8>),
    TransportPing(Vec<u8>),
    TransportClosed,
}

/// Mathematical model of a `SessionEvent`.
pub enum SessionEventView {
    Opened,
    Text(Option<MessageView>),
    Binary(Seq<u8>),
    TransportPing(Seq<u8>),
    TransportClosed,
}

impl View for SessionEvent {
    type V = SessionEventView;

    open spec fn view(&self) -> SessionEventView {
        match self {
            SessionEvent::Opened => SessionEventView::Opened,
            SessionEvent::Text(om) => SessionEventView::Text(
                match om {
                    Some(m) => Some(m@),
                    None => None,
                },
            ),
            SessionEvent::Binary(b) => SessionEventView::Binary(b@),
            SessionEvent::TransportPing(p) => SessionEventView::TransportPing(p@),
            SessionEvent::TransportClosed => SessionEventView::TransportClosed,
        }
    }
}

/// What a session asks its surroundings to do in response to an event:
/// registry operations are submitted to the hub, the rest goes back out on
/// the session's own transport.
pub enum SessionAction {
    Connect { room_id: String, user_id: String, capability: Capability },
    Disconnect { room_id: String, user_id: String },
    Broadcast { room_id: String, message: Message },
    EchoBinary(Vec<u8>),
    TransportPong(Vec<u8>),
}

/// Mathematical model of a `SessionAction`.
pub enum SessionActionView {
    Connect { room_id: Seq<char>, user_id: Seq<char>, capability: Capability },
    Disconnect { room_id: Seq<char>, user_id: Seq<char> },
    Broadcast { room_id: Seq<char>, message: MessageView },
    EchoBinary(Seq<u8>),
    TransportPong(Seq<u8>),
}

impl View for SessionAction {
    type V = SessionActionView;

    open spec fn view(&self) -> SessionActionView {
        match self {
            SessionAction::Connect { room_id, user_id, capability } => SessionActionView::Connect {
                room_id: room_id@,
                user_id: user_id@,
                capability: *capability,
            },
            SessionAction::Disconnect { room_id, user_id } => SessionActionView::Disconnect {
                room_id: room_id@,
                user_id: user_id@,
            },
            SessionAction::Broadcast { room_id, message } => SessionActionView::Broadcast {
                room_id: room_id@,
                message: message@,
            },
            SessionAction::EchoBinary(b) => SessionActionView::EchoBinary(b@),
            SessionAction::TransportPong(p) => SessionActionView::TransportPong(p@),
        }
    }
}

/// The actions of a whole step, in order.
pub open spec fn actions_view(actions: Seq<SessionAction>) -> Seq<SessionActionView> {
    actions.map_values(|a: SessionAction| a@)
}

/// One connection session: the room it joined, the principal it speaks for,
/// the capability under which the hub reaches it, and its lifecycle state.
pub struct Session {
    pub room_id: String,
    pub user_id: String,
    pub capability: Capability,
    pub state: SessionState,
}

/// Mathematical model of a `Session`.
pub struct SessionView {
    pub room_id: Seq<char>,
    pub user_id: Seq<char>,
    pub capability: Capability,
    pub state: SessionState,
}

impl View for Session {
    type V = SessionView;

    open spec fn view(&self) -> SessionView {
        SessionView {
            room_id: self.room_id@,
            user_id: self.user_id@,
            capability: self.capability,
            state: self.state,
        }
    }
}

/// The state after one event: opening the transport moves a connecting
/// session to open, closing it is terminal from any state, and every other
/// event leaves the state alone.
pub open spec fn step_state(state: SessionState, event: SessionEventView) -> SessionState {
    match event {
        SessionEventView::Opened => if state is Connecting {
            SessionState::Open
        } else {
            state
        },
        SessionEventView::TransportClosed => SessionState::Closed,
        _ => state,
    }
}

/// The actions of one event. `fresh_uuid` and `now` only matter for a
/// decoded chat message, which is re-stamped with them before fan-out; the
/// broadcast goes to the session's whole room, the sender included. A frame
/// that did not decode produces nothing, and a session that is not open
/// neither echoes nor broadcasts.
pub open spec fn step_actions(s: SessionView, event: SessionEventView, fresh_uuid: Seq<char>, now: i64) -> Seq<SessionActionView> {
    match event {
        SessionEventView::Opened => if s.state is Connecting {
            seq![SessionActionView::Connect { room_id: s.room_id, user_id: s.user_id, capability: s.capability }]
        } else {
            Seq::empty()
        },
        SessionEventView::Text(om) => if s.state is Open {
            match om {
                Some(m) => seq![
                    SessionActionView::Broadcast { room_id: s.room_id, message: response_view(m, fresh_uuid, now) },
                ],
                None => Seq::empty(),
            }
        } else {
            Seq::empty()
        },
        SessionEventView::Binary(b) => if s.state is Open {
            seq![SessionActionView::EchoBinary(b)]
        } else {
            Seq::empty()
        },
        SessionEventView::TransportPing(p) => if s.state is Open {
            seq![SessionActionView::TransportPong(p)]
        } else {
            Seq::empty()
        },
        SessionEventView::TransportClosed => seq![
            SessionActionView::Disconnect { room_id: s.room_id, user_id: s.user_id },
        ],
    }
}

impl Session {
    /// A session for one fresh transport, handshake still in progress.
    pub fn new(room_id: String, user_id: String, capability: Capability) -> (s: Session)
        ensures
            s@ == (SessionView {
                room_id: room_id@,
                user_id: user_id@,
                capability,
                state: SessionState::Connecting,
            }),
    {
        Session { room_id, user_id, capability, state: SessionState::Connecting }
    }

    /// Runs one step of the protocol state machine. The identity of the
    /// session never changes; the state moves as `step_state` says; and the
    /// actions are exactly `step_actions` for the freshly drawn identifier
    /// and the current time (which only a decoded chat message consumes).
    pub fn handle(&mut self, event: SessionEvent) -> (actions: Vec<SessionAction>)
        ensures
            final(self)@ == (SessionView {
                state: step_state(old(self)@.state, event@),
                room_id: old(self)@.room_id,
                user_id: old(self)@.user_id,
                capability: old(self)@.capability,
            }),
            exists|u: Seq<char>, t: i64| #![auto]
                u.len() == 36 && actions_view(actions@) == step_actions(old(self)@, event@, u, t),
    {
        let ghost witness_uuid = Seq::new(36, |i: int| 'a');
        let mut actions: Vec<SessionAction> = Vec::new();
        match event {
            SessionEvent::Opened => {
                match self.state {
                    SessionState::Connecting => {
                        self.state = SessionState::Open;
                        actions.push(SessionAction::Connect {
                            room_id: self.room_id.clone(),
                            user_id: self.user_id.clone(),
                            capability: self.capability,
                        });
                    },
                    _ => {},
                }
                proof {
                    assert(witness_uuid.len() == 36);
                    assert(actions_view(actions@) =~= step_actions(old(self)@, event@, witness_uuid, 0));
                }
            },
            SessionEvent::Text(decoded) => {
                match self.state {
                    SessionState::Open => {
                        match decoded {
                            Some(message) => {
                                let fresh_uuid = fresh_identifier();
                                let now = current_timestamp();
                                let ghost gu = fresh_uuid@;
                                let ghost gt = now;
                                let outbound = respond(message, fresh_uuid, now);
                                actions.push(SessionAction::Broadcast {
                                    room_id: self.room_id.clone(),
                                    message: outbound,
                                });
                                proof {
                                    assert(actions_view(actions@) =~= step_actions(old(self)@, event@, gu, gt));
                                }
                            },
                            None => {
                                proof {
                                    assert(actions_view(actions@) =~= step_actions(old(self)@, event@, witness_uuid, 0));
                                }
                            },
                        }
                    },
                    _ => {
                        proof {
                            assert(actions_view(actions@) =~= step_actions(old(self)@, event@, witness_uuid, 0));
                        }
                    },
                }
            },
            SessionEvent::Binary(bytes) => {
                match self.state {
                    SessionState::Open => {
                        actions.push(SessionAction::EchoBinary(bytes));
                    },
                    _ => {},
                }
                proof {
                    assert(actions_view(actions@) =~= step_actions(old(self)@, event@, witness_uuid, 0));
                }
            },
            SessionEvent::TransportPing(payload) => {
                match self.state {
                    SessionState::Open => {
                        actions.push(SessionAction::TransportPong(payload));
                    },
                    _ => {},
                }
                proof {
                    assert(actions_view(actions@) =~= step_actions(old(self)@, event@, witness_uuid, 0));
                }
            },
            SessionEvent::TransportClosed => {
                self.state = SessionState::Closed;
                actions.push(SessionAction::Disconnect {
                    room_id: self.room_id.clone(),
                    user_id: self.user_id.clone(),
                });
                proof {
                    assert(actions_view(actions@) =~= step_actions(old(self)@, event@, witness_uuid, 0));
                }
            },
        }
        actions
    }
}

} // verus!
