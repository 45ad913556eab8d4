//! What each operation of the registry returns and how it changes the state,
//! stated over the model of the environment.
//!
//! For every operation there is a function that gives its result and, where it
//! can change anything, a function that gives the state after it. An
//! operation that does not return `Ok(true)` (or `Ok(())`) leaves the state as
//! it found it.

use vstd::prelude::*;
use crate::env::{ContractError, EnvState};
use crate::events::{EventType, Notification, Payload};
use crate::records::{
    AccessGrant,
    IdentityRecord,
    MAX_VERIFICATION_LEVEL,
    PERMISSION_FULL,
    PERMISSION_READ,
};
use crate::storage::{Key, Value};

verus! {

/// The record that a registration creates at ledger time `now`.
pub open spec fn new_record(
    owner: Seq<char>,
    full_name: Seq<char>,
    email: Seq<char>,
    document_hash: Seq<u8>,
    now: u64,
) -> IdentityRecord {
    IdentityRecord {
        owner,
        full_name,
        email,
        document_hash,
        verification_level: 0,
        is_active: true,
        created_at: now,
        updated_at: now,
    }
}

/// The grant that is issued at ledger time `now` for `duration_seconds`.
pub open spec fn new_grant(
    grantee: Seq<char>,
    permission_type: u32,
    now: u64,
    duration_seconds: u64,
) -> AccessGrant {
    AccessGrant {
        granted_to: grantee,
        permission_type,
        expires_at: (now + duration_seconds) as u64,
        is_active: true,
    }
}

impl EnvState {
    /// Initialization succeeds exactly when `admin` has proved its identity.
    pub open spec fn initialize_result(self, admin: Seq<char>) -> Result<(), ContractError> {
        if self.authorizes(admin) {
            Ok(())
        } else {
            Err(ContractError::AuthorizationFailure)
        }
    }

    /// A successful initialization sets the administrator and zeroes the
    /// count.
    pub open spec fn after_initialize(self, admin: Seq<char>) -> EnvState {
        if self.initialize_result(admin) is Ok {
            self.with_entry(Key::Admin, Value::Admin(admin)).with_entry(
                Key::TotalIdentities,
                Value::Total(0),
            )
        } else {
            self
        }
    }

    /// Registration needs proof of identity from `owner`, and applies exactly
    /// when the store holds nothing under the ID.
    pub open spec fn register_identity_result(self, id: Seq<char>, owner: Seq<char>) -> Result<
        bool,
        ContractError,
    > {
        if !self.authorizes(owner) {
            Err(ContractError::AuthorizationFailure)
        } else {
            Ok(!self.storage.contains_key(Key::Identity(id)))
        }
    }

    /// A registration that applies creates the record, appends the ID to the
    /// owner's list, adds one to the count and emits `IdentityCreated`.
    pub open spec fn after_register_identity(
        self,
        id: Seq<char>,
        owner: Seq<char>,
        full_name: Seq<char>,
        email: Seq<char>,
        document_hash: Seq<u8>,
    ) -> EnvState {
        if self.register_identity_result(id, owner) == Ok::<bool, ContractError>(true) {
            self.with_entry(
                Key::Identity(id),
                Value::Identity(new_record(owner, full_name, email, document_hash, self.timestamp)),
            ).with_entry(
                Key::IdentityByOwner(owner),
                Value::Identities(self.identities_of(owner).push(id)),
            ).with_entry(Key::TotalIdentities, Value::Total((self.total() + 1) as u32)).with_event(
                Notification {
                    event_type: EventType::IdentityCreated,
                    identity_id: id,
                    data: Payload::Principal(owner),
                },
            )
        } else {
            self
        }
    }

    /// What an operation that only the owner of the identity `id` may perform
    /// returns, where `valid` says whether its arguments are in range: `false`
    /// for an identity that does not exist, failure where the owner has not
    /// proved its identity, else `valid`.
    pub open spec fn owner_operation_result(self, id: Seq<char>, valid: bool) -> Result<
        bool,
        ContractError,
    > {
        match self.identity(id) {
            None => Ok(false),
            Some(record) => if !self.authorizes(record.owner) {
                Err(ContractError::AuthorizationFailure)
            } else {
                Ok(valid)
            },
        }
    }

    /// An update applies to every identity that exists, on proof of identity
    /// from its owner.
    pub open spec fn update_identity_result(self, id: Seq<char>) -> Result<bool, ContractError> {
        self.owner_operation_result(id, true)
    }

    /// An update that applies overwrites name, email and document digest,
    /// refreshes `updated_at` and emits `IdentityUpdated`.
    pub open spec fn after_update_identity(
        self,
        id: Seq<char>,
        full_name: Seq<char>,
        email: Seq<char>,
        document_hash: Seq<u8>,
    ) -> EnvState {
        if self.update_identity_result(id) == Ok::<bool, ContractError>(true) {
            let record = self.identity(id).unwrap();
            self.with_entry(
                Key::Identity(id),
                Value::Identity(
                    IdentityRecord {
                        full_name,
                        email,
                        document_hash,
                        updated_at: self.timestamp,
                        ..record
                    },
                ),
            ).with_event(
                Notification {
                    event_type: EventType::IdentityUpdated,
                    identity_id: id,
                    data: Payload::Principal(record.owner),
                },
            )
        } else {
            self
        }
    }

    /// Whether `permission_type` is one of read, verify, full.
    pub open spec fn permission_in_range(permission_type: u32) -> bool {
        PERMISSION_READ <= permission_type <= PERMISSION_FULL
    }

    /// A grant applies to an identity that exists, on proof of identity from
    /// its owner, where the permission type is in range.
    pub open spec fn grant_access_result(self, id: Seq<char>, permission_type: u32) -> Result<
        bool,
        ContractError,
    > {
        self.owner_operation_result(id, Self::permission_in_range(permission_type))
    }

    /// A grant that applies replaces whatever grant the grantee had on the
    /// identity and emits `AccessGranted`.
    pub open spec fn after_grant_access(
        self,
        id: Seq<char>,
        grantee: Seq<char>,
        permission_type: u32,
        duration_seconds: u64,
    ) -> EnvState {
        if self.grant_access_result(id, permission_type) == Ok::<bool, ContractError>(true) {
            self.with_entry(
                Key::Access(id, grantee),
                Value::Access(
                    new_grant(grantee, permission_type, self.timestamp, duration_seconds),
                ),
            ).with_event(
                Notification {
                    event_type: EventType::AccessGranted,
                    identity_id: id,
                    data: Payload::Grant(grantee, permission_type),
                },
            )
        } else {
            self
        }
    }

    /// A revocation applies to every identity that exists, on proof of
    /// identity from its owner, whether or not there is a grant to revoke.
    pub open spec fn revoke_access_result(self, id: Seq<char>) -> Result<bool, ContractError> {
        self.owner_operation_result(id, true)
    }

    /// A revocation that applies deletes the grant and emits `AccessRevoked`.
    pub open spec fn after_revoke_access(self, id: Seq<char>, grantee: Seq<char>) -> EnvState {
        if self.revoke_access_result(id) == Ok::<bool, ContractError>(true) {
            self.without_entry(Key::Access(id, grantee)).with_event(
                Notification {
                    event_type: EventType::AccessRevoked,
                    identity_id: id,
                    data: Payload::Principal(grantee),
                },
            )
        } else {
            self
        }
    }

    /// A verification needs an administrator and proof of identity from it,
    /// and applies to an identity that exists where the level is in range.
    pub open spec fn verify_identity_result(self, id: Seq<char>, level: u32) -> Result<
        bool,
        ContractError,
    > {
        match self.admin() {
            None => Err(ContractError::NotInitialized),
            Some(admin) => if !self.authorizes(admin) {
                Err(ContractError::AuthorizationFailure)
            } else {
                Ok(self.identity(id) is Some && level <= MAX_VERIFICATION_LEVEL)
            },
        }
    }

    /// A verification that applies overwrites the level, refreshes
    /// `updated_at` and emits `VerificationLevelChanged` with the level before
    /// and after.
    pub open spec fn after_verify_identity(self, id: Seq<char>, level: u32) -> EnvState {
        if self.verify_identity_result(id, level) == Ok::<bool, ContractError>(true) {
            let record = self.identity(id).unwrap();
            self.with_entry(
                Key::Identity(id),
                Value::Identity(
                    IdentityRecord {
                        verification_level: level,
                        updated_at: self.timestamp,
                        ..record
                    },
                ),
            ).with_event(
                Notification {
                    event_type: EventType::VerificationLevelChanged,
                    identity_id: id,
                    data: Payload::Levels(record.verification_level, level),
                },
            )
        } else {
            self
        }
    }

    /// A deactivation applies to every identity that exists, on proof of
    /// identity from its owner.
    pub open spec fn deactivate_identity_result(self, id: Seq<char>) -> Result<
        bool,
        ContractError,
    > {
        self.owner_operation_result(id, true)
    }

    /// A deactivation that applies clears `is_active` and refreshes
    /// `updated_at`.
    pub open spec fn after_deactivate_identity(self, id: Seq<char>) -> EnvState {
        if self.deactivate_identity_result(id) == Ok::<bool, ContractError>(true) {
            let record = self.identity(id).unwrap();
            self.with_entry(
                Key::Identity(id),
                Value::Identity(
                    IdentityRecord { is_active: false, updated_at: self.timestamp, ..record },
                ),
            )
        } else {
            self
        }
    }

    /// Whether `requester` may read the identity `id`: as its owner, or by a
    /// grant of any type that is in force now.
    pub open spec fn may_read(self, id: Seq<char>, requester: Seq<char>) -> bool {
        match self.identity(id) {
            None => false,
            Some(record) => record.owner == requester || self.effective_grant(id, requester)
                is Some,
        }
    }

    /// Reading an identity needs proof of identity from the requester, and
    /// gives the record exactly where the requester may read it.
    pub open spec fn get_identity_result(self, id: Seq<char>, requester: Seq<char>) -> Result<
        Option<IdentityRecord>,
        ContractError,
    > {
        if !self.authorizes(requester) {
            Err(ContractError::AuthorizationFailure)
        } else if self.may_read(id, requester) {
            Ok(self.identity(id))
        } else {
            Ok(None)
        }
    }

    /// Probing a grant needs no proof of identity, and gives the grant
    /// exactly where it is in force now.
    pub open spec fn check_access_result(self, id: Seq<char>, requester: Seq<char>) -> Option<
        AccessGrant,
    > {
        self.effective_grant(id, requester)
    }

    /// Listing the identities of `owner` needs proof of identity from it.
    pub open spec fn get_identities_by_owner_result(self, owner: Seq<char>) -> Result<
        Seq<Seq<char>>,
        ContractError,
    > {
        if !self.authorizes(owner) {
            Err(ContractError::AuthorizationFailure)
        } else {
            Ok(self.identities_of(owner))
        }
    }

    /// The administrator, or `NotInitialized` where none has been set.
    pub open spec fn get_admin_result(self) -> Result<Seq<char>, ContractError> {
        match self.admin() {
            None => Err(ContractError::NotInitialized),
            Some(admin) => Ok(admin),
        }
    }
}

} // verus!
