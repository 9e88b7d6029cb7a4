use crate::protocol::{ChatMessage, ClientEvent, ServerBoundPacket};
use crate::registry::{reaches_exactly, Broadcast, ChatServer};
use crate::username::{is_generated_username, valid_username};
use vstd::prelude::*;

verus! {

/// Where a connection is in its life.
#[derive(Debug, Clone, Copy, PartialEq, Eq, Structural)]
pub enum SessionState {
    /// Accepted by the transport, not yet registered.
    Connecting,
    /// Registered; inbound frames are handled.
    Open,
    /// Released; no further frame has any effect.
    Closed,
}

/// An inbound frame, as the transport hands it over.
#[derive(Debug, Clone, PartialEq, Eq)]
pub enum Frame {
    /// The peer asked to close the connection.
    Close,
    /// A ping carrying this payload.
    Ping(Vec<u8>),
    /// A text frame that decoded to a server-bound event.
    Packet(ServerBoundPacket),
    /// A text frame that did not decode.
    Malformed,
    /// A frame kind this server does not handle.
    Unsupported,
    /// Reading from the connection failed.
    TransportError,
}

/// Something the transport has to carry out, in the order given.
#[derive(Debug, Clone, PartialEq, Eq)]
pub enum Action {
    /// Answer on this connection with a pong carrying this payload.
    Pong(Vec<u8>),
    /// Append this message to the message log.
    Persist(ChatMessage),
    /// Send this event to each listed session.
    Deliver(Broadcast),
    /// Send a close frame on this connection.
    CloseAck,
    /// Drop this connection.
    Release,
}

/// A connection's identity and place in its life.
#[derive(Debug, Clone, Copy, PartialEq, Eq)]
pub struct Session {
    pub id: u64,
    pub state: SessionState,
}

/// `a` appends a message with these fields to the log.
pub open spec fn is_persist(a: Action, text: Seq<char>, username: Seq<char>, timestamp: u128) -> bool {
    match a {
        Action::Persist(m) => m.text@ == text && m.username@ == username && m.timestamp
            == timestamp,
        _ => false,
    }
}

/// `a` delivers `event` to every session of `users`, each once.
pub open spec fn is_delivery(a: Action, event: ClientEvent, users: Map<u64, Seq<char>>) -> bool {
    match a {
        Action::Deliver(b) => b.packet@ == event && reaches_exactly(b.recipients@, users),
        _ => false,
    }
}

/// Closing after a protocol violation: acknowledge, drop the session from the
/// registry without announcing it, release.
pub open spec fn closes_silently(
    id: u64,
    users: Map<u64, Seq<char>>,
    actions: Seq<Action>,
    new_state: SessionState,
    new_users: Map<u64, Seq<char>>,
) -> bool {
    &&& actions == seq![Action::CloseAck, Action::Release]
    &&& new_state == SessionState::Closed
    &&& new_users == users.remove(id)
}

/// Closing on the peer's request (`ack`) or on a transport failure: drop the
/// session, announce the departure to those who remain, release.
pub open spec fn closes_with_leave(
    ack: bool,
    id: u64,
    users: Map<u64, Seq<char>>,
    actions: Seq<Action>,
    new_state: SessionState,
    new_users: Map<u64, Seq<char>>,
) -> bool {
    let head: Seq<Action> = if ack {
        seq![Action::CloseAck]
    } else {
        Seq::empty()
    };
    &&& new_state == SessionState::Closed
    &&& new_users == users.remove(id)
    &&& if users.contains_key(id) {
        &&& actions.len() == head.len() + 2
        &&& actions.subrange(0, head.len() as int) == head
        &&& is_delivery(
            actions[head.len() as int],
            ClientEvent::ClientLeave { username: users[id] },
            users.remove(id),
        )
        &&& actions.last() == Action::Release
    } else {
        actions == head.push(Action::Release)
    }
}

/// What registering a session `id` in `state` against a registry holding
/// `users` does: a fresh identity is registered under a generated name and
/// the join is delivered to every session, the new one included; an identity
/// already live is refused.
pub open spec fn open_outcome(
    id: u64,
    state: SessionState,
    users: Map<u64, Seq<char>>,
    actions: Seq<Action>,
    new_state: SessionState,
    new_users: Map<u64, Seq<char>>,
) -> bool {
    if state != SessionState::Connecting {
        actions == Seq::<Action>::empty() && new_state == state && new_users == users
    } else if users.contains_key(id) {
        actions == seq![Action::Release] && new_state == SessionState::Closed && new_users == users
    } else {
        &&& new_state == SessionState::Open
        &&& actions.len() == 1
        &&& exists|name: Seq<char>|
            {
                &&& is_generated_username(name)
                &&& new_users == users.insert(id, name)
                &&& #[trigger] is_delivery(
                    actions[0],
                    ClientEvent::ClientJoin { username: name },
                    new_users,
                )
            }
    }
}

/// What handling `frame` at time `now` does to a session `id` in `state`
/// against a registry holding `users`: the actions, in order, and the new
/// state and registry.
pub open spec fn frame_outcome(
    id: u64,
    state: SessionState,
    users: Map<u64, Seq<char>>,
    frame: Frame,
    now: u128,
    actions: Seq<Action>,
    new_state: SessionState,
    new_users: Map<u64, Seq<char>>,
) -> bool {
    if state != SessionState::Open {
        actions == Seq::<Action>::empty() && new_state == state && new_users == users
    } else {
        match frame {
            Frame::Ping(p) => actions == seq![Action::Pong(p)] && new_state == state && new_users
                == users,
            Frame::Packet(ServerBoundPacket::Message { text }) => {
                &&& new_state == state
                &&& new_users == users
                &&& if users.contains_key(id) {
                    &&& actions.len() == 2
                    &&& is_persist(actions[0], text@, users[id], now)
                    &&& is_delivery(
                        actions[1],
                        ClientEvent::Message { text: text@, username: users[id], timestamp: now },
                        users,
                    )
                } else {
                    actions == Seq::<Action>::empty()
                }
            },
            Frame::Packet(ServerBoundPacket::SetUsername { username }) => {
                if valid_username(username@) {
                    &&& actions == Seq::<Action>::empty()
                    &&& new_state == state
                    &&& new_users == if users.contains_key(id) {
                        users.insert(id, username@)
                    } else {
                        users
                    }
                } else {
                    closes_silently(id, users, actions, new_state, new_users)
                }
            },
            Frame::Close => closes_with_leave(true, id, users, actions, new_state, new_users),
            Frame::TransportError => closes_with_leave(
                false,
                id,
                users,
                actions,
                new_state,
                new_users,
            ),
            Frame::Malformed | Frame::Unsupported => closes_silently(
                id,
                users,
                actions,
                new_state,
                new_users,
            ),
        }
    }
}

impl Session {
    /// A connection that is not registered yet.
    pub fn new(id: u64) -> (r: Session)
        ensures
            r.id == id,
            r.state == SessionState::Connecting,
    {
        Session { id, state: SessionState::Connecting }
    }

    /// Registers the connection under a generated name and announces it to
    /// every session, itself included. An identity that is already live is
    /// refused and the connection released.
    pub fn open(&mut self, server: &mut ChatServer) -> (r: Vec<Action>)
        requires
            old(server).wf(),
        ensures
            final(server).wf(),
            final(self).id == old(self).id,
            open_outcome(
                old(self).id,
                old(self).state,
                old(server).users(),
                r@,
                final(self).state,
                final(server).users(),
            ),
    {
        let mut r: Vec<Action> = Vec::new();
        if self.state != SessionState::Connecting {
            return r;
        }
        match server.add_client(self.id) {
            Ok(b) => {
                self.state = SessionState::Open;
                let ghost name = match b.packet@ {
                    ClientEvent::ClientJoin { username } => username,
                    _ => Seq::empty(),
                };
                r.push(Action::Deliver(b));
                assert(is_delivery(r@[0], ClientEvent::ClientJoin { username: name }, server.users()));
            },
            Err(_) => {
                self.state = SessionState::Closed;
                r.push(Action::Release);
                assert(r@ =~= seq![Action::Release]);
            },
        }
        r
    }

    fn close(&mut self, server: &mut ChatServer, ack: bool) -> (r: Vec<Action>)
        requires
            old(server).wf(),
        ensures
            final(server).wf(),
            final(self).id == old(self).id,
            closes_with_leave(
                ack,
                old(self).id,
                old(server).users(),
                r@,
                final(self).state,
                final(server).users(),
            ),
    {
        let mut r: Vec<Action> = Vec::new();
        if ack {
            r.push(Action::CloseAck);
        }
        let ghost head = r@;
        match server.remove_client(self.id) {
            Some(b) => {
                r.push(Action::Deliver(b));
                assert(r@.subrange(0, head.len() as int) =~= head);
            },
            None => {
                assert(server.users() =~= old(server).users().remove(self.id));
            },
        }
        r.push(Action::Release);
        proof {
            if old(server).users().contains_key(self.id) {
                assert(r@.subrange(0, head.len() as int) =~= head);
            } else {
                assert(r@ =~= head.push(Action::Release));
            }
        }
        self.state = SessionState::Closed;
        r
    }

    fn close_silently(&mut self, server: &mut ChatServer) -> (r: Vec<Action>)
        requires
            old(server).wf(),
        ensures
            final(server).wf(),
            final(self).id == old(self).id,
            closes_silently(
                old(self).id,
                old(server).users(),
                r@,
                final(self).state,
                final(server).users(),
            ),
    {
        let _ = server.remove_client(self.id);
        proof {
            if !old(server).users().contains_key(self.id) {
                assert(server.users() =~= old(server).users().remove(self.id));
            }
        }
        self.state = SessionState::Closed;
        let mut r: Vec<Action> = Vec::new();
        r.push(Action::CloseAck);
        r.push(Action::Release);
        assert(r@ =~= seq![Action::CloseAck, Action::Release]);
        r
    }

    /// Handles one inbound frame received at `now` (milliseconds since the
    /// epoch) and returns what the transport has to do, in order.
    pub fn handle_frame(&mut self, server: &mut ChatServer, frame: Frame, now: u128) -> (r: Vec<
        Action,
    >)
        requires
            old(server).wf(),
        ensures
            final(server).wf(),
            final(self).id == old(self).id,
            frame_outcome(
                old(self).id,
                old(self).state,
                old(server).users(),
                frame,
                now,
                r@,
                final(self).state,
                final(server).users(),
            ),
    {
        if self.state != SessionState::Open {
            return Vec::new();
        }
        match frame {
            Frame::Ping(p) => {
                let mut r: Vec<Action> = Vec::new();
                r.push(Action::Pong(p));
                assert(r@ =~= seq![Action::Pong(p)]);
                r
            },
            Frame::Packet(ServerBoundPacket::Message { text }) => {
                let mut r: Vec<Action> = Vec::new();
                if let Ok(name) = server.get_username(self.id) {
                    let logged = ChatMessage {
                        text: text.clone(),
                        username: name.clone(),
                        timestamp: now,
                    };
                    let message = ChatMessage { text, username: name, timestamp: now };
                    r.push(Action::Persist(logged));
                    r.push(Action::Deliver(server.emit_message(message.to_packet())));
                }
                r
            },
            Frame::Packet(ServerBoundPacket::SetUsername { username }) => {
                match server.set_username(self.id, username) {
                    Err(crate::registry::RegistryError::InvalidUsername) => self.close_silently(
                        server,
                    ),
                    _ => Vec::new(),
                }
            },
            Frame::Close => self.close(server, true),
            Frame::TransportError => self.close(server, false),
            Frame::Malformed | Frame::Unsupported => self.close_silently(server),
        }
    }
}

} // verus!
