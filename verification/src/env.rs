//! The execution environment of the registry, as a value.
//!
//! An [`Env`] holds what an invocation of the registry can see and change: the
//! ledger time, the principals that have proved their identity for this
//! invocation, the durable store, and the log of emitted events.

use vstd::prelude::*;
use crate::address::Address;
use crate::events::{Event, Notification};
use crate::records::{AccessGrant, IdentityRecord};
use crate::storage::{Key, Storage, Value};

verus! {

/// Why an operation of the registry was aborted.
#[derive(Clone, Copy, Debug, PartialEq, Eq, Structural)]
pub enum ContractError {
    /// The principal whose authority the operation needs has not proved its
    /// identity.
    AuthorizationFailure,
    /// The operation needs the administrator and none has been set.
    NotInitialized,
}

/// The environment in which one invocation of the registry runs.
pub struct Env {
    /// The ledger time, in seconds.
    pub timestamp: u64,
    /// The principals that have proved their identity for this invocation.
    pub authorized: Vec<Address>,
    /// The durable store.
    pub storage: Storage,
    /// The events emitted so far, oldest first.
    pub events: Vec<Event>,
}

/// Mathematical model of an [`Env`].
pub struct EnvState {
    pub timestamp: u64,
    pub authorized: Seq<Seq<char>>,
    pub storage: Map<Key, Value>,
    pub events: Seq<Notification>,
}

impl View for Env {
    type V = EnvState;

    open spec fn view(&self) -> EnvState {
        EnvState {
            timestamp: self.timestamp,
            authorized: Seq::new(self.authorized@.len(), |i: int| self.authorized@[i]@),
            storage: self.storage@,
            events: Seq::new(self.events@.len(), |i: int| self.events@[i]@),
        }
    }
}

impl EnvState {
    /// Whether `principal` has proved its identity for this invocation.
    pub open spec fn authorizes(self, principal: Seq<char>) -> bool {
        self.authorized.contains(principal)
    }

    /// The record of the identity `id`, if the store holds one.
    pub open spec fn identity(self, id: Seq<char>) -> Option<IdentityRecord> {
        if self.storage.contains_key(Key::Identity(id)) {
            match self.storage[Key::Identity(id)] {
                Value::Identity(record) => Some(record),
                _ => None,
            }
        } else {
            None
        }
    }

    /// The grant on the identity `id` to `grantee`, if the store holds one.
    pub open spec fn grant(self, id: Seq<char>, grantee: Seq<char>) -> Option<AccessGrant> {
        if self.storage.contains_key(Key::Access(id, grantee)) {
            match self.storage[Key::Access(id, grantee)] {
                Value::Access(grant) => Some(grant),
                _ => None,
            }
        } else {
            None
        }
    }

    /// The grant on the identity `id` to `grantee`, if the store holds one and
    /// it is in force now.
    pub open spec fn effective_grant(self, id: Seq<char>, grantee: Seq<char>) -> Option<
        AccessGrant,
    > {
        match self.grant(id, grantee) {
            Some(grant) => if grant.effective_at(self.timestamp) {
                Some(grant)
            } else {
                None
            },
            None => None,
        }
    }

    /// The administrator, if one has been set.
    pub open spec fn admin(self) -> Option<Seq<char>> {
        if self.storage.contains_key(Key::Admin) {
            match self.storage[Key::Admin] {
                Value::Admin(admin) => Some(admin),
                _ => None,
            }
        } else {
            None
        }
    }

    /// Whether an administrator has been set and has proved its identity for
    /// this invocation.
    pub open spec fn authorizes_admin(self) -> bool {
        match self.admin() {
            Some(admin) => self.authorizes(admin),
            None => false,
        }
    }

    /// The number of identities ever created: zero where the store holds no
    /// count.
    pub open spec fn total(self) -> u32 {
        if self.storage.contains_key(Key::TotalIdentities) {
            match self.storage[Key::TotalIdentities] {
                Value::Total(n) => n,
                _ => 0,
            }
        } else {
            0
        }
    }

    /// The IDs that `owner` registered, in order of creation: none where the
    /// store holds no list.
    pub open spec fn identities_of(self, owner: Seq<char>) -> Seq<Seq<char>> {
        if self.storage.contains_key(Key::IdentityByOwner(owner)) {
            match self.storage[Key::IdentityByOwner(owner)] {
                Value::Identities(ids) => ids,
                _ => Seq::empty(),
            }
        } else {
            Seq::empty()
        }
    }

    /// This state with `value` kept under `key`.
    pub open spec fn with_entry(self, key: Key, value: Value) -> EnvState {
        EnvState { storage: self.storage.insert(key, value), ..self }
    }

    /// This state with nothing kept under `key`.
    pub open spec fn without_entry(self, key: Key) -> EnvState {
        EnvState { storage: self.storage.remove(key), ..self }
    }

    /// This state with `event` emitted last.
    pub open spec fn with_event(self, event: Notification) -> EnvState {
        EnvState { events: self.events.push(event), ..self }
    }

    /// This state at the ledger time `timestamp`.
    pub open spec fn at_time(self, timestamp: u64) -> EnvState {
        EnvState { timestamp, ..self }
    }

    /// This state with exactly the principals `authorized` having proved their
    /// identity.
    pub open spec fn with_authorized(self, authorized: Seq<Seq<char>>) -> EnvState {
        EnvState { authorized, ..self }
    }
}

impl Env {
    /// An environment at ledger time `timestamp`, with an empty store, no
    /// authorized principal and no event.
    pub fn new(timestamp: u64) -> (env: Env)
        ensures
            env@ == (EnvState {
                timestamp,
                authorized: Seq::empty(),
                storage: Map::empty(),
                events: Seq::empty(),
            }),
            forall|p: Seq<char>| !env@.authorizes(p),
    {
        let env = Env { timestamp, authorized: Vec::new(), storage: Storage::new(), events: Vec::new() };
        proof {
            assert(env@.authorized =~= Seq::empty());
            assert(env@.events =~= Seq::empty());
        }
        env
    }

    /// Demands proof of identity from `principal`.
    pub fn require_auth(&self, principal: &Address) -> (r: Result<(), ContractError>)
        ensures
            r == if self@.authorizes(principal@) {
                Ok::<(), ContractError>(())
            } else {
                Err::<(), ContractError>(ContractError::AuthorizationFailure)
            },
    {
        let mut i: usize = 0;
        while i < self.authorized.len()
            invariant
                i <= self.authorized.len(),
                forall|j: int| 0 <= j < i ==> self.authorized@[j]@ != principal@,
            decreases self.authorized.len() - i,
        {
            if self.authorized[i].same(principal) {
                proof {
                    assert(self@.authorized[i as int] == principal@);
                }
                return Ok(());
            }
            i += 1;
        }
        proof {
            assert forall|j: int| 0 <= j < self@.authorized.len() implies self@.authorized[j]
                != principal@ by {
                assert(self@.authorized[j] == self.authorized@[j]@);
            }
        }
        Err(ContractError::AuthorizationFailure)
    }

    /// Records that `principal` has proved its identity for this invocation.
    pub fn authorize(&mut self, principal: Address)
        ensures
            final(self)@ == old(self)@.with_authorized(old(self)@.authorized.push(principal@)),
            forall|p: Seq<char>|
                final(self)@.authorizes(p) == (old(self)@.authorizes(p) || p == principal@),
    {
        self.authorized.push(principal);
        proof {
            let before = old(self)@.authorized;
            assert(self@.authorized =~= before.push(principal@));
            assert(self@.events =~= old(self)@.events);
            assert forall|p: Seq<char>|
                self@.authorizes(p) == (old(self)@.authorizes(p) || p == principal@) by {
                if old(self)@.authorizes(p) {
                    let i = choose|i: int| 0 <= i < before.len() && before[i] == p;
                    assert(self@.authorized[i] == p);
                }
                if p == principal@ {
                    assert(self@.authorized[before.len() as int] == p);
                }
            }
        }
    }

    /// Emits `event`.
    pub fn publish(&mut self, event: Event)
        ensures
            final(self)@ == old(self)@.with_event(event@),
    {
        self.events.push(event);
        proof {
            assert(self@.authorized =~= old(self)@.authorized);
            assert(self@.events =~= old(self)@.events.push(event@));
        }
    }
}

} // verus!
