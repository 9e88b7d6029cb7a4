use crate::protocol::{ClientBoundPacket, ClientEvent};
use crate::username::{
    create_random_username, is_generated_username, lemma_generated_is_valid, valid_username,
    MAX_USERNAME_BYTES,
};
use vstd::prelude::*;

verus! {

/// One live session: its connection identity and its current display name.
#[derive(Debug, Clone, PartialEq, Eq)]
pub struct ChatClient {
    pub id: u64,
    pub username: String,
}

/// Why a registry operation was refused.
#[derive(Debug, Clone, Copy, PartialEq, Eq)]
pub enum RegistryError {
    /// The connection identity already has a live session.
    AlreadyRegistered,
    /// No live session has that connection identity.
    UnknownSession,
    /// The name is longer than `MAX_USERNAME_BYTES` bytes.
    InvalidUsername,
}

/// One event to be delivered, unchanged, to each of the listed sessions.
#[derive(Debug, Clone, PartialEq, Eq)]
pub struct Broadcast {
    pub recipients: Vec<u64>,
    pub packet: ClientBoundPacket,
}

/// `recipients` names every registered session, each exactly once.
pub open spec fn reaches_exactly(recipients: Seq<u64>, users: Map<u64, Seq<char>>) -> bool {
    &&& recipients.no_duplicates()
    &&& recipients.to_set() == users.dom()
}

/// What removing `id` from a registry holding `users` gives: the registry
/// without `id`, and a departure announcement to those who remain exactly
/// when `id` was registered.
pub open spec fn remove_outcome(
    users: Map<u64, Seq<char>>,
    id: u64,
    r: Option<Broadcast>,
    new_users: Map<u64, Seq<char>>,
) -> bool {
    &&& new_users == users.remove(id)
    &&& r is Some <==> users.contains_key(id)
    &&& r matches Some(b) ==> {
        &&& reaches_exactly(b.recipients@, new_users)
        &&& b.packet@ == (ClientEvent::ClientLeave { username: users[id] })
    }
}

/// The registry of live sessions.
pub struct ChatServer {
    clients: Vec<ChatClient>,
}

impl ChatServer {
    /// Connection identities in registration order.
    pub closed spec fn ids(&self) -> Seq<u64> {
        self.clients@.map_values(|c: ChatClient| c.id)
    }

    /// Identities are unique and every name is short enough.
    pub closed spec fn wf(&self) -> bool {
        &&& self.ids().no_duplicates()
        &&& forall|i: int|
            0 <= i < self.clients@.len() ==> valid_username(#[trigger] self.clients@[i].username@)
    }

    /// The registry as a map from connection identity to current name.
    pub closed spec fn users(&self) -> Map<u64, Seq<char>> {
        Map::new(
            |id: u64| self.ids().contains(id),
            |id: u64| self.clients@[self.ids().index_of(id)].username@,
        )
    }

    proof fn lemma_users_at(&self, i: int)
        requires
            self.wf(),
            0 <= i < self.clients@.len(),
        ensures
            self.users().contains_key(self.clients@[i].id),
            self.users()[self.clients@[i].id] == self.clients@[i].username@,
    {
        let ids = self.ids();
        assert(ids[i] == self.clients@[i].id);
        assert(ids.contains(ids[i]));
        let j = ids.index_of(ids[i]);
        assert(0 <= j < ids.len() && ids[j] == ids[i]);
    }

    proof fn lemma_users_has(&self, id: u64) -> (i: int)
        requires
            self.wf(),
            self.users().contains_key(id),
        ensures
            0 <= i < self.clients@.len(),
            self.clients@[i].id == id,
    {
        let i = self.ids().index_of(id);
        assert(self.ids()[i] == id);
        i
    }

    /// Every registered name is short enough.
    pub proof fn lemma_names_valid(&self)
        requires
            self.wf(),
        ensures
            forall|id: u64| #[trigger]
                self.users().contains_key(id) ==> valid_username(self.users()[id]),
    {
        assert forall|id: u64| #[trigger] self.users().contains_key(id) implies valid_username(
            self.users()[id],
        ) by {
            let i = self.lemma_users_has(id);
            self.lemma_users_at(i);
        }
    }

    /// An empty registry.
    pub fn new() -> (r: ChatServer)
        ensures
            r.wf(),
            r.users() == Map::<u64, Seq<char>>::empty(),
    {
        let r = ChatServer { clients: Vec::new() };
        assert(r.users() =~= Map::<u64, Seq<char>>::empty());
        r
    }

    fn find(&self, id: u64) -> (r: Option<usize>)
        requires
            self.wf(),
        ensures
            r is Some <==> self.users().contains_key(id),
            r matches Some(i) ==> i < self.clients@.len() && self.clients@[i as int].id == id,
    {
        let mut i: usize = 0;
        while i < self.clients.len()
            invariant
                self.wf(),
                i <= self.clients@.len(),
                forall|j: int| 0 <= j < i ==> #[trigger] self.clients@[j].id != id,
            decreases self.clients@.len() - i,
        {
            if self.clients[i].id == id {
                proof {
                    self.lemma_users_at(i as int);
                }
                return Some(i);
            }
            i += 1;
        }
        proof {
            if self.users().contains_key(id) {
                let j = self.lemma_users_has(id);
            }
        }
        None
    }

    /// The identities of all registered sessions, each once.
    fn recipients(&self) -> (r: Vec<u64>)
        requires
            self.wf(),
        ensures
            reaches_exactly(r@, self.users()),
    {
        let mut r: Vec<u64> = Vec::new();
        let mut i: usize = 0;
        while i < self.clients.len()
            invariant
                i <= self.clients@.len(),
                r@ == self.ids().subrange(0, i as int),
            decreases self.clients@.len() - i,
        {
            r.push(self.clients[i].id);
            i += 1;
            assert(r@ =~= self.ids().subrange(0, i as int));
        }
        assert(r@ =~= self.ids());
        assert(r@.to_set() =~= self.users().dom());
        r
    }

    /// Addresses `packet` to every session registered now.
    pub fn emit_message(&self, packet: ClientBoundPacket) -> (r: Broadcast)
        requires
            self.wf(),
        ensures
            reaches_exactly(r.recipients@, self.users()),
            r.packet == packet,
    {
        Broadcast { recipients: self.recipients(), packet }
    }

    /// Registers `id` under `username` and announces the join to every
    /// session, the new one included.
    pub fn register_client(&mut self, id: u64, username: String) -> (r: Result<
        Broadcast,
        RegistryError,
    >)
        requires
            old(self).wf(),
        ensures
            final(self).wf(),
            old(self).users().contains_key(id) ==> r == Err::<Broadcast, RegistryError>(
                RegistryError::AlreadyRegistered,
            ),
            !old(self).users().contains_key(id) && !valid_username(username@) ==> r == Err::<
                Broadcast,
                RegistryError,
            >(RegistryError::InvalidUsername),
            r is Err ==> final(self).users() == old(self).users(),
            r is Ok <==> !old(self).users().contains_key(id) && valid_username(username@),
            r matches Ok(b) ==> {
                &&& final(self).users() == old(self).users().insert(id, username@)
                &&& reaches_exactly(b.recipients@, final(self).users())
                &&& b.packet@ == (ClientEvent::ClientJoin { username: username@ })
            },
    {
        if self.find(id).is_some() {
            return Err(RegistryError::AlreadyRegistered);
        }
        if username.as_str().as_bytes().len() > MAX_USERNAME_BYTES {
            return Err(RegistryError::InvalidUsername);
        }
        let ghost before = *self;
        let name = username.clone();
        assert(valid_username(username@));
        self.clients.push(ChatClient { id, username });
        proof {
            assert(self.ids() =~= before.ids().push(id));
            assert forall|i: int| 0 <= i < self.clients@.len() implies valid_username(
                #[trigger] self.clients@[i].username@,
            ) by {
                if i < before.clients@.len() {
                    assert(self.clients@[i] == before.clients@[i]);
                } else {
                    assert(self.clients@[i].username == username);
                }
            }
            let n = before.clients@.len() as int;
            let expected = before.users().insert(id, name@);
            assert forall|k: u64| #[trigger] self.users().contains_key(k) implies expected.contains_key(k)
                && self.users()[k] == expected[k] by {
                let i = self.lemma_users_has(k);
                self.lemma_users_at(i);
                if i < n {
                    assert(self.clients@[i] == before.clients@[i]);
                    before.lemma_users_at(i);
                }
            }
            assert forall|k: u64| #[trigger] expected.contains_key(k) implies self.users().contains_key(k) by {
                if k == id {
                    self.lemma_users_at(n);
                } else {
                    let i = before.lemma_users_has(k);
                    assert(self.clients@[i] == before.clients@[i]);
                    self.lemma_users_at(i);
                }
            }
            assert(self.users() =~= before.users().insert(id, name@));
        }
        Ok(self.emit_message(ClientBoundPacket::ClientJoin { username: name }))
    }

    /// Registers `id` under a freshly generated name and announces the join
    /// to every session, the new one included.
    pub fn add_client(&mut self, id: u64) -> (r: Result<Broadcast, RegistryError>)
        requires
            old(self).wf(),
        ensures
            final(self).wf(),
            r is Ok <==> !old(self).users().contains_key(id),
            r is Err ==> r == Err::<Broadcast, RegistryError>(RegistryError::AlreadyRegistered)
                && final(self).users() == old(self).users(),
            r matches Ok(b) ==> match b.packet@ {
                ClientEvent::ClientJoin { username } => {
                    &&& is_generated_username(username)
                    &&& final(self).users() == old(self).users().insert(id, username)
                    &&& reaches_exactly(b.recipients@, final(self).users())
                },
                _ => false,
            },
    {
        if self.find(id).is_some() {
            return Err(RegistryError::AlreadyRegistered);
        }
        let username = create_random_username();
        proof {
            lemma_generated_is_valid(username@);
        }
        self.register_client(id, username)
    }

    /// Removes the session of `id`, if there is one, and announces its
    /// departure to the sessions that remain. A second call for the same
    /// identity finds nothing and announces nothing.
    pub fn remove_client(&mut self, id: u64) -> (r: Option<Broadcast>)
        requires
            old(self).wf(),
        ensures
            final(self).wf(),
            remove_outcome(old(self).users(), id, r, final(self).users()),
    {
        let found = self.find(id);
        let i = match found {
            None => {
                assert(self.users() =~= self.users().remove(id));
                return None;
            },
            Some(i) => i,
        };
        let ghost before = *self;
        proof {
            before.lemma_users_at(i as int);
        }
        let client = self.clients.remove(i);
        proof {
            let old_ids = before.ids();
            assert(self.ids() =~= old_ids.remove(i as int));
            assert forall|a: int, b: int|
                0 <= a < self.ids().len() && 0 <= b < self.ids().len() && a != b implies self.ids()[a]
                != self.ids()[b] by {
                let a2 = if a < i { a } else { a + 1 };
                let b2 = if b < i { b } else { b + 1 };
                assert(old_ids[a2] != old_ids[b2]);
            }
            assert forall|j: int| 0 <= j < self.clients@.len() implies valid_username(
                #[trigger] self.clients@[j].username@,
            ) by {
                let j2 = if j < i { j } else { j + 1 };
                assert(self.clients@[j] == before.clients@[j2]);
            }
            let expected = before.users().remove(id);
            assert forall|k: u64| #[trigger]
                self.users().contains_key(k) implies expected.contains_key(k) && self.users()[k]
                == expected[k] by {
                let j = self.lemma_users_has(k);
                self.lemma_users_at(j);
                let j2 = if j < i { j } else { j + 1 };
                assert(self.clients@[j] == before.clients@[j2]);
                assert(old_ids[j2] != old_ids[i as int]);
                before.lemma_users_at(j2);
            }
            assert forall|k: u64| #[trigger]
                expected.contains_key(k) implies self.users().contains_key(k) by {
                let m = before.lemma_users_has(k);
                assert(m != i);
                let m2 = if m < i { m } else { m - 1 };
                assert(self.clients@[m2] == before.clients@[m]);
                self.lemma_users_at(m2);
            }
            assert(self.users() =~= expected);
        }
        Some(self.emit_message(ClientBoundPacket::ClientLeave { username: client.username }))
    }

    /// The current name of the session of `id`.
    pub fn get_username(&self, id: u64) -> (r: Result<String, RegistryError>)
        requires
            self.wf(),
        ensures
            r is Ok <==> self.users().contains_key(id),
            r matches Ok(name) ==> name@ == self.users()[id],
            r is Err ==> r == Err::<String, RegistryError>(RegistryError::UnknownSession),
    {
        match self.find(id) {
            Some(i) => {
                proof {
                    self.lemma_users_at(i as int);
                }
                Ok(self.clients[i].username.clone())
            },
            None => Err(RegistryError::UnknownSession),
        }
    }

    /// Renames the session of `id`, without announcing it. A name longer than
    /// `MAX_USERNAME_BYTES` bytes is refused and nothing changes.
    pub fn set_username(&mut self, id: u64, username: String) -> (r: Result<(), RegistryError>)
        requires
            old(self).wf(),
        ensures
            final(self).wf(),
            !valid_username(username@) ==> r == Err::<(), RegistryError>(
                RegistryError::InvalidUsername,
            ),
            valid_username(username@) && !old(self).users().contains_key(id) ==> r == Err::<
                (),
                RegistryError,
            >(RegistryError::UnknownSession),
            r is Ok <==> valid_username(username@) && old(self).users().contains_key(id),
            r is Ok ==> final(self).users() == old(self).users().insert(id, username@),
            r is Err ==> final(self).users() == old(self).users(),
    {
        if username.as_str().as_bytes().len() > MAX_USERNAME_BYTES {
            return Err(RegistryError::InvalidUsername);
        }
        let i = match self.find(id) {
            None => {
                return Err(RegistryError::UnknownSession);
            },
            Some(i) => i,
        };
        let ghost before = *self;
        let ghost name = username@;
        assert(valid_username(name));
        self.clients.set(i, ChatClient { id, username });
        proof {
            assert(self.ids() =~= before.ids());
            assert forall|j: int| 0 <= j < self.clients@.len() implies valid_username(
                #[trigger] self.clients@[j].username@,
            ) by {
                if j != i {
                    assert(self.clients@[j] == before.clients@[j]);
                }
            }
            let expected = before.users().insert(id, name);
            assert forall|k: u64| #[trigger]
                self.users().contains_key(k) implies expected.contains_key(k) && self.users()[k]
                == expected[k] by {
                let j = self.lemma_users_has(k);
                self.lemma_users_at(j);
                if j != i {
                    assert(self.clients@[j] == before.clients@[j]);
                    assert(before.ids()[j] != before.ids()[i as int]);
                    before.lemma_users_at(j);
                } else {
                    assert(self.clients@[j].username@ == name);
                }
            }
            assert forall|k: u64| #[trigger]
                expected.contains_key(k) implies self.users().contains_key(k) by {
                if k == id {
                    self.lemma_users_at(i as int);
                } else {
                    let m = before.lemma_users_has(k);
                    assert(self.clients@[m] == before.clients@[m]);
                    self.lemma_users_at(m);
                }
            }
            assert(self.users() =~= expected);
        }
        Ok(())
    }
}

} // verus!
