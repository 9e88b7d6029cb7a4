use vstd::prelude::*;

verus! {

/// An event sent by a client to the server.
#[derive(Debug, Clone, PartialEq, Eq)]
pub enum ServerBoundPacket {
    Message { text: String },
    SetUsername { username: String },
}

/// An event sent by the server to clients.
#[derive(Debug, Clone, PartialEq, Eq)]
pub enum ClientBoundPacket {
    Message { text: String, username: String, timestamp: u128 },
    ClientJoin { username: String },
    ClientLeave { username: String },
    /// Declared by the protocol; the server never produces it.
    ClientTyping { username: String },
}

/// The value of a client-bound event, with strings as character sequences.
pub enum ClientEvent {
    Message { text: Seq<char>, username: Seq<char>, timestamp: u128 },
    ClientJoin { username: Seq<char> },
    ClientLeave { username: Seq<char> },
    ClientTyping { username: Seq<char> },
}

impl View for ClientBoundPacket {
    type V = ClientEvent;

    open spec fn view(&self) -> ClientEvent {
        match self {
            ClientBoundPacket::Message { text, username, timestamp } => ClientEvent::Message {
                text: text@,
                username: username@,
                timestamp: *timestamp,
            },
            ClientBoundPacket::ClientJoin { username } => ClientEvent::ClientJoin {
                username: username@,
            },
            ClientBoundPacket::ClientLeave { username } => ClientEvent::ClientLeave {
                username: username@,
            },
            ClientBoundPacket::ClientTyping { username } => ClientEvent::ClientTyping {
                username: username@,
            },
        }
    }
}

/// A chat message accepted from a client: its text, the sender's name when
/// it was sent, and the wall-clock time of acceptance in milliseconds.
#[derive(Debug, Clone, PartialEq, Eq)]
pub struct ChatMessage {
    pub text: String,
    pub username: String,
    pub timestamp: u128,
}

impl ChatMessage {
    /// The client-bound event that announces this message.
    pub fn to_packet(self) -> (r: ClientBoundPacket)
        ensures
            r@ == (ClientEvent::Message {
                text: self.text@,
                username: self.username@,
                timestamp: self.timestamp,
            }),
    {
        ClientBoundPacket::Message {
            text: self.text,
            username: self.username,
            timestamp: self.timestamp,
        }
    }
}

/// Payload of a message announcement in the index-keyed protocol.
#[derive(Debug, Clone, PartialEq, Eq)]
pub struct MessageS2CData {
    pub text: String,
    pub username: String,
    pub timestamp: u128,
}

/// Payload of a join announcement in the index-keyed protocol.
#[derive(Debug, Clone, PartialEq, Eq)]
pub struct ClientJoinS2CData {
    pub client_id: usize,
    pub username: String,
}

/// Payload of a leave announcement in the index-keyed protocol.
#[derive(Debug, Clone, PartialEq, Eq)]
pub struct ClientLeaveS2CData {
    pub client_id: usize,
}

/// Payload of a typing notice in the index-keyed protocol.
#[derive(Debug, Clone, PartialEq, Eq)]
pub struct ClientTypingS2CData {
    pub client_id: usize,
}

/// Payload of a chat message sent by a client in the index-keyed protocol.
#[derive(Debug, Clone, PartialEq, Eq)]
pub struct MessageC2SData {
    pub text: String,
}

/// Payload of a rename request in the index-keyed protocol.
#[derive(Debug, Clone, PartialEq, Eq)]
pub struct SetUsernameC2SData {
    pub username: String,
}

/// The index-keyed form of the protocol, where clients are named by number.
#[derive(Debug, Clone, PartialEq, Eq)]
pub enum ProtocolEvent {
    MessageS2C(MessageS2CData),
    ClientJoinS2C(ClientJoinS2CData),
    ClientLeaveS2C(ClientLeaveS2CData),
    ClientTypingS2C(ClientTypingS2CData),
    MessageC2S(MessageC2SData),
    SetUsernameC2S(SetUsernameC2SData),
}

} // verus!
