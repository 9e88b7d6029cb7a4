use crate::protocol::{ClientEvent, ServerBoundPacket};
use crate::registry::{reaches_exactly, remove_outcome};
use crate::session::{
    frame_outcome, is_delivery, is_persist, open_outcome, Action, Frame, Session, SessionState,
};
use crate::username::valid_username;
use vstd::prelude::*;

verus! {

/// Identities of the open sessions among `sessions`.
pub open spec fn open_ids(sessions: Seq<Session>) -> Set<u64> {
    Set::new(
        |id: u64|
            exists|i: int|
                0 <= i < sessions.len() && #[trigger] sessions[i].id == id && sessions[i].state
                    == SessionState::Open,
    )
}

/// No two sessions share an identity.
pub open spec fn distinct_ids(sessions: Seq<Session>) -> bool {
    forall|i: int, j: int|
        0 <= i < sessions.len() && 0 <= j < sessions.len() && i != j ==> sessions[i].id
            != sessions[j].id
}

proof fn lemma_open_ids_update(sessions: Seq<Session>, k: int, new_state: SessionState)
    requires
        distinct_ids(sessions),
        0 <= k < sessions.len(),
    ensures
        open_ids(sessions.update(k, Session { id: sessions[k].id, state: new_state })) == if new_state
            == SessionState::Open {
            open_ids(sessions).insert(sessions[k].id)
        } else {
            open_ids(sessions).remove(sessions[k].id)
        },
{
    let after = sessions.update(k, Session { id: sessions[k].id, state: new_state });
    let expected = if new_state == SessionState::Open {
        open_ids(sessions).insert(sessions[k].id)
    } else {
        open_ids(sessions).remove(sessions[k].id)
    };
    assert forall|id: u64| open_ids(after).contains(id) <==> expected.contains(id) by {
        if open_ids(after).contains(id) {
            let i = choose|i: int|
                0 <= i < after.len() && #[trigger] after[i].id == id && after[i].state
                    == SessionState::Open;
            if i != k {
                assert(sessions[i].id != sessions[k].id);
                assert(open_ids(sessions).contains(id));
            }
        }
        if expected.contains(id) {
            if id == sessions[k].id {
                assert(after[k].id == id);
            } else {
                let i = choose|i: int|
                    0 <= i < sessions.len() && #[trigger] sessions[i].id == id && sessions[i].state
                        == SessionState::Open;
                assert(after[i] == sessions[i]);
            }
        }
    }
    assert(open_ids(after) =~= expected);
}

/// The registry holds exactly the identities of the open sessions, and one
/// session handling a frame keeps it so.
pub proof fn lemma_frame_keeps_registry_open_sessions(
    sessions: Seq<Session>,
    k: int,
    users: Map<u64, Seq<char>>,
    frame: Frame,
    now: u128,
    actions: Seq<Action>,
    new_state: SessionState,
    new_users: Map<u64, Seq<char>>,
)
    requires
        distinct_ids(sessions),
        users.dom() == open_ids(sessions),
        0 <= k < sessions.len(),
        frame_outcome(
            sessions[k].id,
            sessions[k].state,
            users,
            frame,
            now,
            actions,
            new_state,
            new_users,
        ),
    ensures
        new_users.dom() == open_ids(
            sessions.update(k, Session { id: sessions[k].id, state: new_state }),
        ),
{
    let id = sessions[k].id;
    lemma_open_ids_update(sessions, k, new_state);
    if sessions[k].state == SessionState::Open {
        assert(open_ids(sessions).contains(id));
    } else {
        assert(!open_ids(sessions).contains(id)) by {
            if open_ids(sessions).contains(id) {
                let i = choose|i: int|
                    0 <= i < sessions.len() && #[trigger] sessions[i].id == id && sessions[i].state
                        == SessionState::Open;
                assert(i == k);
            }
        }
    }
    if new_state == SessionState::Open {
        assert(new_users.dom() =~= open_ids(sessions).insert(id));
    } else {
        assert(new_users.dom() =~= open_ids(sessions).remove(id));
    }
}

/// The registry holds exactly the identities of the open sessions, and one
/// session registering keeps it so.
pub proof fn lemma_open_keeps_registry_open_sessions(
    sessions: Seq<Session>,
    k: int,
    users: Map<u64, Seq<char>>,
    actions: Seq<Action>,
    new_state: SessionState,
    new_users: Map<u64, Seq<char>>,
)
    requires
        distinct_ids(sessions),
        users.dom() == open_ids(sessions),
        0 <= k < sessions.len(),
        open_outcome(sessions[k].id, sessions[k].state, users, actions, new_state, new_users),
    ensures
        new_users.dom() == open_ids(
            sessions.update(k, Session { id: sessions[k].id, state: new_state }),
        ),
{
    let id = sessions[k].id;
    lemma_open_ids_update(sessions, k, new_state);
    if sessions[k].state == SessionState::Open {
        assert(open_ids(sessions).contains(id));
    } else {
        assert(!open_ids(sessions).contains(id)) by {
            if open_ids(sessions).contains(id) {
                let i = choose|i: int|
                    0 <= i < sessions.len() && #[trigger] sessions[i].id == id && sessions[i].state
                        == SessionState::Open;
                assert(i == k);
            }
        }
    }
    if new_state == SessionState::Open {
        assert(new_users.dom() =~= open_ids(sessions).insert(id));
    } else {
        assert(new_users.dom() =~= open_ids(sessions).remove(id));
    }
}

/// A rename to a name of at most twelve bytes replaces the name the registry
/// holds and produces no action; a longer one is never stored, produces no
/// delivery, and closes the session.
pub proof fn lemma_rename(
    id: u64,
    users: Map<u64, Seq<char>>,
    username: String,
    now: u128,
    actions: Seq<Action>,
    new_state: SessionState,
    new_users: Map<u64, Seq<char>>,
)
    requires
        users.contains_key(id),
        frame_outcome(
            id,
            SessionState::Open,
            users,
            Frame::Packet(ServerBoundPacket::SetUsername { username }),
            now,
            actions,
            new_state,
            new_users,
        ),
    ensures
        valid_username(username@) ==> {
            &&& new_users.contains_key(id)
            &&& new_users[id] == username@
            &&& actions.len() == 0
            &&& new_state == SessionState::Open
        },
        !valid_username(username@) ==> {
            &&& new_users == users.remove(id)
            &&& new_state == SessionState::Closed
            &&& forall|i: int| 0 <= i < actions.len() ==> !(#[trigger] actions[i] is Deliver)
        },
{
}

/// A chat message from a registered session is delivered as one event to
/// every registered session exactly once, the sender included.
pub proof fn lemma_message_echoes_to_all(
    id: u64,
    users: Map<u64, Seq<char>>,
    text: String,
    now: u128,
    actions: Seq<Action>,
    new_state: SessionState,
    new_users: Map<u64, Seq<char>>,
)
    requires
        users.contains_key(id),
        frame_outcome(
            id,
            SessionState::Open,
            users,
            Frame::Packet(ServerBoundPacket::Message { text }),
            now,
            actions,
            new_state,
            new_users,
        ),
    ensures
        actions.len() == 2,
        actions[1] matches Action::Deliver(b) && {
            &&& b.recipients@.contains(id)
            &&& reaches_exactly(b.recipients@, users)
            &&& b.packet@ == (ClientEvent::Message {
                text: text@,
                username: users[id],
                timestamp: now,
            })
        },
{
    if let Action::Deliver(b) = actions[1] {
        assert(b.recipients@.to_set().contains(id));
    }
}

/// Removing the same identity twice announces its departure once at most:
/// the second removal finds nothing and announces nothing.
pub proof fn lemma_remove_twice_announces_once(
    users0: Map<u64, Seq<char>>,
    id: u64,
    r1: Option<crate::registry::Broadcast>,
    users1: Map<u64, Seq<char>>,
    r2: Option<crate::registry::Broadcast>,
    users2: Map<u64, Seq<char>>,
)
    requires
        remove_outcome(users0, id, r1, users1),
        remove_outcome(users1, id, r2, users2),
    ensures
        r1 is Some <==> users0.contains_key(id),
        r2 is None,
        users2 == users1,
{
    assert(users2 =~= users1);
}

/// Two chat messages handled one after the other, from sessions `a` and `b`,
/// are logged and delivered in that order, both to every registered session.
pub proof fn lemma_messages_keep_order(
    a: u64,
    b: u64,
    users: Map<u64, Seq<char>>,
    m1: String,
    m2: String,
    t1: u128,
    t2: u128,
    actions1: Seq<Action>,
    state1: SessionState,
    users1: Map<u64, Seq<char>>,
    actions2: Seq<Action>,
    state2: SessionState,
    users2: Map<u64, Seq<char>>,
)
    requires
        users.contains_key(a),
        users.contains_key(b),
        frame_outcome(
            a,
            SessionState::Open,
            users,
            Frame::Packet(ServerBoundPacket::Message { text: m1 }),
            t1,
            actions1,
            state1,
            users1,
        ),
        frame_outcome(
            b,
            SessionState::Open,
            users1,
            Frame::Packet(ServerBoundPacket::Message { text: m2 }),
            t2,
            actions2,
            state2,
            users2,
        ),
    ensures
        (actions1 + actions2).len() == 4,
        is_persist((actions1 + actions2)[0], m1@, users[a], t1),
        is_delivery(
            (actions1 + actions2)[1],
            ClientEvent::Message { text: m1@, username: users[a], timestamp: t1 },
            users,
        ),
        is_persist((actions1 + actions2)[2], m2@, users[b], t2),
        is_delivery(
            (actions1 + actions2)[3],
            ClientEvent::Message { text: m2@, username: users[b], timestamp: t2 },
            users,
        ),
{
    let all = actions1 + actions2;
    assert(all[2] == actions2[0]);
    assert(all[3] == actions2[1]);
}

} // verus!
