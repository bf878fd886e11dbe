//! The wire envelope: every frame exchanged over a connection carries one
//! `Message`, whose `data` is exactly one of four payload variants. The
//! hub never inspects `cipher`/`iv` payloads; they are opaque ciphertext.
//! Timestamps are unix seconds.

use vstd::prelude::*;

verus! {

/// One chat message; `cipher` and `iv` are end-to-end encrypted payload the
/// server never decrypts, only annotates with an identifier and a timestamp.
#[derive(Debug, Clone, PartialEq, Eq)]
pub struct ChatMessage {
    pub uuid: Option<String>,
    pub user_id: String,
    pub cipher: String,
    pub iv: String,
    pub message_sent_at: Option<i64>,
}

/// Mathematical model of a `ChatMessage`.
pub struct ChatMessageView {
    pub uuid: Option<Seq<char>>,
    pub user_id: Seq<char>,
    pub cipher: Seq<char>,
    pub iv: Seq<char>,
    pub message_sent_at: Option<i64>,
}

impl View for ChatMessage {
    type V = ChatMessageView;

    open spec fn view(&self) -> ChatMessageView {
        ChatMessageView {
            uuid: match self.uuid {
                Some(u) => Some(u@),
                None => None,
            },
            user_id: self.user_id@,
            cipher: self.cipher@,
            iv: self.iv@,
            message_sent_at: self.message_sent_at,
        }
    }
}

impl ChatMessage {
    /// Builds a message that carries an identifier and a timestamp.
    pub fn new(uuid: String, user_id: String, cipher: String, iv: String, message_sent_at: i64) -> (r: Self)
        ensures
            r@ == (ChatMessageView {
                uuid: Some(uuid@),
                user_id: user_id@,
                cipher: cipher@,
                iv: iv@,
                message_sent_at: Some(message_sent_at),
            }),
    {
        ChatMessage { uuid: Some(uuid), user_id, cipher, iv, message_sent_at: Some(message_sent_at) }
    }

    /// A copy that models identically.
    pub fn duplicate(&self) -> (r: Self)
        ensures
            r@ == self@,
    {
        ChatMessage {
            uuid: match &self.uuid {
                Some(u) => Some(u.clone()),
                None => None,
            },
            user_id: self.user_id.clone(),
            cipher: self.cipher.clone(),
            iv: self.iv.clone(),
            message_sent_at: self.message_sent_at,
        }
    }
}

/// Presence status carried by a `Connection` payload.
#[derive(Debug, Clone, Copy, PartialEq, Eq, Structural)]
pub enum Status {
    Connected,
    StayingAlive,
    Disconnected,
}

/// The caller's public key material, opaque to the hub; clients use it for
/// end-to-end key exchange.
#[derive(Debug, Clone, PartialEq, Eq)]
pub struct PublicKey {
    pub crv: String,
    pub ext: bool,
    pub key_ops: Vec<String>,
    pub kty: String,
    pub x: String,
    pub y: String,
}

/// Mathematical model of a `PublicKey`.
pub struct PublicKeyView {
    pub crv: Seq<char>,
    pub ext: bool,
    pub key_ops: Seq<Seq<char>>,
    pub kty: Seq<char>,
    pub x: Seq<char>,
    pub y: Seq<char>,
}

impl View for PublicKey {
    type V = PublicKeyView;

    open spec fn view(&self) -> PublicKeyView {
        PublicKeyView {
            crv: self.crv@,
            ext: self.ext,
            key_ops: self.key_ops.deep_view(),
            kty: self.kty@,
            x: self.x@,
            y: self.y@,
        }
    }
}

impl PublicKey {
    /// A copy that models identically.
    pub fn duplicate(&self) -> (r: Self)
        ensures
            r@ == self@,
    {
        let key_ops = self.key_ops.clone();
        proof {
            assert(key_ops@ =~= self.key_ops@);
            assert(key_ops.deep_view() =~= self.key_ops.deep_view());
        }
        PublicKey {
            crv: self.crv.clone(),
            ext: self.ext,
            key_ops,
            kty: self.kty.clone(),
            x: self.x.clone(),
            y: self.y.clone(),
        }
    }
}

/// A presence/liveness announcement with the sender's key material.
#[derive(Debug, Clone, PartialEq, Eq)]
pub struct Connection {
    pub status: Status,
    pub user_id: String,
    pub user_name: String,
    pub public_key: PublicKey,
}

/// Mathematical model of a `Connection`.
pub struct ConnectionView {
    pub status: Status,
    pub user_id: Seq<char>,
    pub user_name: Seq<char>,
    pub public_key: PublicKeyView,
}

impl View for Connection {
    type V = ConnectionView;

    open spec fn view(&self) -> ConnectionView {
        ConnectionView {
            status: self.status,
            user_id: self.user_id@,
            user_name: self.user_name@,
            public_key: self.public_key@,
        }
    }
}

impl Connection {
    pub fn new(status: Status, user_id: String, user_name: String, public_key: PublicKey) -> (r: Self)
        ensures
            r@ == (ConnectionView {
                status,
                user_id: user_id@,
                user_name: user_name@,
                public_key: public_key@,
            }),
    {
        Connection { status, user_id, user_name, public_key }
    }

    /// A copy that models identically.
    pub fn duplicate(&self) -> (r: Self)
        ensures
            r@ == self@,
    {
        Connection {
            status: self.status,
            user_id: self.user_id.clone(),
            user_name: self.user_name.clone(),
            public_key: self.public_key.duplicate(),
        }
    }
}

/// A symmetric room key, re-encrypted for one intended recipient, though
/// delivery still fans out to the whole room.
#[derive(Debug, Clone, PartialEq, Eq)]
pub struct GroupKey {
    pub encrypted_key: String,
    pub iv: String,
    pub creation_date: i64,
    pub for_user_id: String,
    pub from_user_id: String,
}

/// Mathematical model of a `GroupKey`.
pub struct GroupKeyView {
    pub encrypted_key: Seq<char>,
    pub iv: Seq<char>,
    pub creation_date: i64,
    pub for_user_id: Seq<char>,
    pub from_user_id: Seq<char>,
}

impl View for GroupKey {
    type V = GroupKeyView;

    open spec fn view(&self) -> GroupKeyView {
        GroupKeyView {
            encrypted_key: self.encrypted_key@,
            iv: self.iv@,
            creation_date: self.creation_date,
            for_user_id: self.for_user_id@,
            from_user_id: self.from_user_id@,
        }
    }
}

impl GroupKey {
    /// A copy that models identically.
    pub fn duplicate(&self) -> (r: Self)
        ensures
            r@ == self@,
    {
        GroupKey {
            encrypted_key: self.encrypted_key.clone(),
            iv: self.iv.clone(),
            creation_date: self.creation_date,
            for_user_id: self.for_user_id.clone(),
            from_user_id: self.from_user_id.clone(),
        }
    }
}

/// Which side of a liveness probe a `Ping` payload carries.
#[derive(Debug, Clone, Copy, PartialEq, Eq, Structural)]
pub enum Knock {
    Ping,
    Pong,
}

/// A liveness probe or its response.
#[derive(Debug, Clone, Copy, PartialEq, Eq, Structural)]
pub struct Ping {
    pub ping_type: Knock,
}

impl Ping {
    pub fn new(ping_type: Knock) -> (r: Self)
        ensures
            r.ping_type == ping_type,
    {
        Ping { ping_type }
    }
}

/// The tagged payload of an envelope: exactly one variant per message.
#[derive(Debug, Clone, PartialEq, Eq)]
pub enum Data {
    ChatMessage(ChatMessage),
    Connection(Connection),
    GroupKey(GroupKey),
    Ping(Ping),
}

/// Mathematical model of a `Data` payload.
pub enum DataView {
    ChatMessage(ChatMessageView),
    Connection(ConnectionView),
    GroupKey(GroupKeyView),
    Ping(Ping),
}

impl View for Data {
    type V = DataView;

    open spec fn view(&self) -> DataView {
        match self {
            Data::ChatMessage(c) => DataView::ChatMessage(c@),
            Data::Connection(c) => DataView::Connection(c@),
            Data::GroupKey(g) => DataView::GroupKey(g@),
            Data::Ping(p) => DataView::Ping(*p),
        }
    }
}

impl Data {
    /// A copy that models identically.
    pub fn duplicate(&self) -> (r: Self)
        ensures
            r@ == self@,
    {
        match self {
            Data::ChatMessage(c) => Data::ChatMessage(c.duplicate()),
            Data::Connection(c) => Data::Connection(c.duplicate()),
            Data::GroupKey(g) => Data::GroupKey(g.duplicate()),
            Data::Ping(p) => Data::Ping(*p),
        }
    }
}

/// The outer envelope put on the wire: one payload per frame.
#[derive(Debug, Clone, PartialEq, Eq)]
pub struct Message {
    pub data: Data,
}

/// Mathematical model of a `Message`.
pub struct MessageView {
    pub data: DataView,
}

impl View for Message {
    type V = MessageView;

    open spec fn view(&self) -> MessageView {
        MessageView { data: self.data@ }
    }
}

impl Message {
    pub fn new(data: Data) -> (r: Self)
        ensures
            r@ == (MessageView { data: data@ }),
    {
        Message { data }
    }

    /// A copy that models identically.
    pub fn duplicate(&self) -> (r: Self)
        ensures
            r@ == self@,
    {
        Message { data: self.data.duplicate() }
    }
}

} // verus!
