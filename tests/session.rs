use chat_server::{
    Action, Broadcast, ChatMessage, ChatServer, ClientBoundPacket, Frame, RegistryError,
    ServerBoundPacket, Session, SessionState,
};

fn opened(server: &mut ChatServer, id: u64) -> (Session, String) {
    let mut session = Session::new(id);
    assert_eq!(session.state, SessionState::Connecting);
    let actions = session.open(server);
    assert_eq!(session.state, SessionState::Open);
    let name = server.get_username(id).unwrap();
    match &actions[..] {
        [Action::Deliver(b)] => {
            assert_eq!(b.packet, ClientBoundPacket::ClientJoin { username: name.clone() })
        }
        other => panic!("unexpected actions {:?}", other),
    }
    (session, name)
}

fn message(text: &str) -> Frame {
    Frame::Packet(ServerBoundPacket::Message { text: text.to_string() })
}

fn rename(name: &str) -> Frame {
    Frame::Packet(ServerBoundPacket::SetUsername { username: name.to_string() })
}

fn sorted(v: &[u64]) -> Vec<u64> {
    let mut v = v.to_vec();
    v.sort();
    v
}

#[test]
fn message_is_logged_then_echoed_to_all() {
    let mut server = ChatServer::new();
    let (mut a, name_a) = opened(&mut server, 1);
    let (_b, _) = opened(&mut server, 2);
    let actions = a.handle_frame(&mut server, message("hi"), 1234);
    assert_eq!(actions.len(), 2);
    assert_eq!(
        actions[0],
        Action::Persist(ChatMessage {
            text: "hi".to_string(),
            username: name_a.clone(),
            timestamp: 1234,
        })
    );
    match &actions[1] {
        Action::Deliver(b) => {
            assert_eq!(sorted(&b.recipients), vec![1, 2]);
            assert_eq!(
                b.packet,
                ClientBoundPacket::Message {
                    text: "hi".to_string(),
                    username: name_a,
                    timestamp: 1234,
                }
            );
        }
        other => panic!("unexpected action {:?}", other),
    }
    assert_eq!(a.state, SessionState::Open);
}

#[test]
fn second_join_is_seen_by_both() {
    let mut server = ChatServer::new();
    let (_a, _) = opened(&mut server, 10);
    let mut b = Session::new(11);
    let actions = b.open(&mut server);
    let name_b = server.get_username(11).unwrap();
    assert_eq!(
        actions,
        vec![Action::Deliver(Broadcast {
            recipients: actions_recipients(&actions),
            packet: ClientBoundPacket::ClientJoin { username: name_b },
        })]
    );
    assert_eq!(sorted(&actions_recipients(&actions)), vec![10, 11]);
}

fn actions_recipients(actions: &[Action]) -> Vec<u64> {
    match actions {
        [Action::Deliver(b)] => b.recipients.clone(),
        other => panic!("unexpected actions {:?}", other),
    }
}

#[test]
fn overlong_rename_closes_without_broadcast() {
    let mut server = ChatServer::new();
    let (mut a, name_a) = opened(&mut server, 1);
    let (_b, _) = opened(&mut server, 2);
    let actions = a.handle_frame(&mut server, rename("this-name-is-too-long-xx"), 5);
    assert_eq!(actions, vec![Action::CloseAck, Action::Release]);
    assert_eq!(a.state, SessionState::Closed);
    assert_eq!(server.get_username(1), Err(RegistryError::UnknownSession));
    assert_ne!(name_a, "this-name-is-too-long-xx");
}

#[test]
fn short_rename_changes_name_silently() {
    let mut server = ChatServer::new();
    let (mut a, _) = opened(&mut server, 1);
    let actions = a.handle_frame(&mut server, rename("neo"), 5);
    assert!(actions.is_empty());
    assert_eq!(a.state, SessionState::Open);
    assert_eq!(server.get_username(1), Ok("neo".to_string()));
    let actions = a.handle_frame(&mut server, message("yo"), 6);
    assert_eq!(
        actions[0],
        Action::Persist(ChatMessage {
            text: "yo".to_string(),
            username: "neo".to_string(),
            timestamp: 6,
        })
    );
}

#[test]
fn close_frame_announces_leave_once_to_the_rest() {
    let mut server = ChatServer::new();
    let (mut a, name_a) = opened(&mut server, 1);
    let (_b, _) = opened(&mut server, 2);
    let (_c, _) = opened(&mut server, 3);
    let actions = a.handle_frame(&mut server, Frame::Close, 9);
    assert_eq!(actions.len(), 3);
    assert_eq!(actions[0], Action::CloseAck);
    match &actions[1] {
        Action::Deliver(b) => {
            assert_eq!(sorted(&b.recipients), vec![2, 3]);
            assert_eq!(b.packet, ClientBoundPacket::ClientLeave { username: name_a });
        }
        other => panic!("unexpected action {:?}", other),
    }
    assert_eq!(actions[2], Action::Release);
    assert_eq!(a.state, SessionState::Closed);
    assert!(a.handle_frame(&mut server, Frame::Close, 10).is_empty());
    assert!(a.handle_frame(&mut server, Frame::TransportError, 11).is_empty());
}

#[test]
fn transport_error_announces_leave_without_ack() {
    let mut server = ChatServer::new();
    let (mut a, name_a) = opened(&mut server, 1);
    let (_b, _) = opened(&mut server, 2);
    let actions = a.handle_frame(&mut server, Frame::TransportError, 9);
    assert_eq!(
        actions,
        vec![
            Action::Deliver(Broadcast {
                recipients: vec![2],
                packet: ClientBoundPacket::ClientLeave { username: name_a },
            }),
            Action::Release,
        ]
    );
    assert_eq!(server.get_username(1), Err(RegistryError::UnknownSession));
}

#[test]
fn ping_gets_pong_with_same_payload() {
    let mut server = ChatServer::new();
    let (mut a, _) = opened(&mut server, 1);
    let actions = a.handle_frame(&mut server, Frame::Ping(vec![1, 2, 3]), 0);
    assert_eq!(actions, vec![Action::Pong(vec![1, 2, 3])]);
    assert_eq!(a.state, SessionState::Open);
}

#[test]
fn malformed_and_unsupported_frames_close_silently() {
    let mut server = ChatServer::new();
    let (mut a, _) = opened(&mut server, 1);
    let (mut b, _) = opened(&mut server, 2);
    assert_eq!(
        a.handle_frame(&mut server, Frame::Malformed, 0),
        vec![Action::CloseAck, Action::Release]
    );
    assert_eq!(
        b.handle_frame(&mut server, Frame::Unsupported, 0),
        vec![Action::CloseAck, Action::Release]
    );
    assert_eq!(server.get_username(1), Err(RegistryError::UnknownSession));
    assert_eq!(server.get_username(2), Err(RegistryError::UnknownSession));
}

#[test]
fn messages_keep_their_order() {
    let mut server = ChatServer::new();
    let (mut a, name_a) = opened(&mut server, 1);
    let (mut b, name_b) = opened(&mut server, 2);
    let mut all = a.handle_frame(&mut server, message("m1"), 100);
    all.extend(b.handle_frame(&mut server, message("m2"), 50));
    assert_eq!(all.len(), 4);
    assert_eq!(
        all[0],
        Action::Persist(ChatMessage { text: "m1".to_string(), username: name_a, timestamp: 100 })
    );
    assert_eq!(
        all[2],
        Action::Persist(ChatMessage { text: "m2".to_string(), username: name_b, timestamp: 50 })
    );
    for (i, text) in [(1usize, "m1"), (3, "m2")] {
        match &all[i] {
            Action::Deliver(d) => {
                assert_eq!(sorted(&d.recipients), vec![1, 2]);
                match &d.packet {
                    ClientBoundPacket::Message { text: t, .. } => assert_eq!(t, text),
                    other => panic!("unexpected packet {:?}", other),
                }
            }
            other => panic!("unexpected action {:?}", other),
        }
    }
}

#[test]
fn open_refuses_live_identity_and_acts_once() {
    let mut server = ChatServer::new();
    let (mut a, name) = opened(&mut server, 1);
    assert!(a.open(&mut server).is_empty());
    let mut twin = Session::new(1);
    assert_eq!(twin.open(&mut server), vec![Action::Release]);
    assert_eq!(twin.state, SessionState::Closed);
    assert_eq!(server.get_username(1), Ok(name));
}

#[test]
fn frames_before_open_do_nothing() {
    let mut server = ChatServer::new();
    let mut s = Session::new(4);
    assert!(s.handle_frame(&mut server, message("early"), 1).is_empty());
    assert_eq!(s.state, SessionState::Connecting);
    assert_eq!(server.get_username(4), Err(RegistryError::UnknownSession));
}

#[test]
fn chat_message_becomes_message_packet() {
    let m = ChatMessage { text: "t".to_string(), username: "u".to_string(), timestamp: 42 };
    assert_eq!(
        m.to_packet(),
        ClientBoundPacket::Message { text: "t".to_string(), username: "u".to_string(), timestamp: 42 }
    );
}
