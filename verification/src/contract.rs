//! The operations of the registry.

use vstd::prelude::*;
use crate::address::Address;
use crate::env::{ContractError, Env};
use crate::events::{Event, EventData, EventType};
use crate::records::{
    AccessPermission,
    IdentityData,
    IdentityRecord,
    MAX_VERIFICATION_LEVEL,
    PERMISSION_FULL,
    PERMISSION_READ,
};
use crate::storage::{texts, DataKey, StoredValue};

verus! {

/// The registry of identities and of the grants on them.
///
/// Every operation runs against an [`Env`] and is one atomic step: it either
/// applies in full or leaves the environment as it found it.
pub struct DigitalIdentityContract;

/// A copy of a list of IDs.
fn copy_ids(ids: &Vec<String>) -> (copy: Vec<String>)
    ensures
        texts(copy@) == texts(ids@),
{
    let mut copy: Vec<String> = Vec::new();
    let mut i: usize = 0;
    while i < ids.len()
        invariant
            i <= ids.len(),
            copy@.len() == i,
            forall|j: int| 0 <= j < i ==> copy@[j]@ == ids@[j]@,
        decreases ids.len() - i,
    {
        copy.push(ids[i].clone());
        i += 1;
    }
    proof {
        assert(texts(copy@) =~= texts(ids@));
    }
    copy
}

impl DigitalIdentityContract {
    /// Registers a new identity under `identity_id`, owned by `owner`.
    ///
    /// Needs proof of identity from `owner`. Returns `Ok(false)`, and changes
    /// nothing, where the ID is taken. Where the registration applies, the
    /// count of identities must not be at the limit of its type.
    pub fn register_identity(
        env: &mut Env,
        identity_id: String,
        owner: Address,
        full_name: String,
        email: String,
        document_hash: Vec<u8>,
    ) -> (r: Result<bool, ContractError>)
        requires
            old(env)@.register_identity_result(identity_id@, owner@) == Ok::<bool, ContractError>(
                true,
            ) ==> old(env)@.total() < u32::MAX,
        ensures
            r == old(env)@.register_identity_result(identity_id@, owner@),
            final(env)@ == old(env)@.after_register_identity(
                identity_id@,
                owner@,
                full_name@,
                email@,
                document_hash@,
            ),
    {
        if env.require_auth(&owner).is_err() {
            return Err(ContractError::AuthorizationFailure);
        }
        let key = DataKey::Identity(identity_id.clone());
        if env.storage.has(&key) {
            return Ok(false);
        }
        let now = env.timestamp;
        let data = IdentityData {
            owner: owner.clone(),
            full_name,
            email,
            document_hash,
            verification_level: 0,
            is_active: true,
            created_at: now,
            updated_at: now,
        };
        let owner_key = DataKey::IdentityByOwner(owner.clone());
        let mut owner_identities = match env.storage.get(&owner_key) {
            Some(StoredValue::Identities(ids)) => copy_ids(ids),
            _ => Vec::new(),
        };
        owner_identities.push(identity_id.clone());
        proof {
            assert(texts(owner_identities@) =~= old(env)@.identities_of(owner@).push(
                identity_id@,
            ));
        }
        let total = Self::get_total_identities(env);
        let _ = env.storage.set(key, StoredValue::Identity(data));
        let _ = env.storage.set(owner_key, StoredValue::Identities(owner_identities));
        let _ = env.storage.set(DataKey::TotalIdentities, StoredValue::Total(total + 1));
        env.publish(
            Event {
                event_type: EventType::IdentityCreated,
                identity_id,
                data: EventData::Principal(owner),
            },
        );
        Ok(true)
    }

    /// Sets the administrator and zeroes the count of identities.
    ///
    /// Needs proof of identity from `admin`. Nothing prevents a second
    /// initialization, which replaces the administrator and resets the count.
    pub fn initialize(env: &mut Env, admin: Address) -> (r: Result<(), ContractError>)
        ensures
            r == old(env)@.initialize_result(admin@),
            final(env)@ == old(env)@.after_initialize(admin@),
    {
        if env.require_auth(&admin).is_err() {
            return Err(ContractError::AuthorizationFailure);
        }
        let _ = env.storage.set(DataKey::Admin, StoredValue::Admin(admin));
        let _ = env.storage.set(DataKey::TotalIdentities, StoredValue::Total(0));
        Ok(())
    }

    /// Overwrites name, email and document digest of the identity
    /// `identity_id`.
    ///
    /// Needs proof of identity from the owner in the stored record. Returns
    /// `Ok(false)`, and changes nothing, where the identity does not exist.
    pub fn update_identity(
        env: &mut Env,
        identity_id: String,
        full_name: String,
        email: String,
        document_hash: Vec<u8>,
    ) -> (r: Result<bool, ContractError>)
        ensures
            r == old(env)@.update_identity_result(identity_id@),
            final(env)@ == old(env)@.after_update_identity(
                identity_id@,
                full_name@,
                email@,
                document_hash@,
            ),
    {
        let key = DataKey::Identity(identity_id.clone());
        let stored = match env.storage.get(&key) {
            Some(StoredValue::Identity(data)) => data,
            _ => {
                return Ok(false);
            },
        };
        if env.require_auth(&stored.owner).is_err() {
            return Err(ContractError::AuthorizationFailure);
        }
        let owner = stored.owner.clone();
        let data = IdentityData {
            owner: stored.owner.clone(),
            full_name,
            email,
            document_hash,
            verification_level: stored.verification_level,
            is_active: stored.is_active,
            created_at: stored.created_at,
            updated_at: env.timestamp,
        };
        let _ = env.storage.set(key, StoredValue::Identity(data));
        env.publish(
            Event {
                event_type: EventType::IdentityUpdated,
                identity_id,
                data: EventData::Principal(owner),
            },
        );
        Ok(true)
    }

    /// Grants `granted_to` a permission on the identity `identity_id` that
    /// expires `duration_seconds` from now, in place of any grant it had.
    ///
    /// Needs proof of identity from the owner of the identity. Returns
    /// `Ok(false)`, and changes nothing, where the identity does not exist or
    /// the permission type is none of 1, 2, 3. Where the grant applies, the
    /// time of expiry must not be beyond the limit of its type.
    pub fn grant_access(
        env: &mut Env,
        identity_id: String,
        granted_to: Address,
        permission_type: u32,
        duration_seconds: u64,
    ) -> (r: Result<bool, ContractError>)
        requires
            old(env)@.grant_access_result(identity_id@, permission_type) == Ok::<
                bool,
                ContractError,
            >(true) ==> old(env)@.timestamp + duration_seconds <= u64::MAX,
        ensures
            r == old(env)@.grant_access_result(identity_id@, permission_type),
            final(env)@ == old(env)@.after_grant_access(
                identity_id@,
                granted_to@,
                permission_type,
                duration_seconds,
            ),
    {
        let stored = match env.storage.get(&DataKey::Identity(identity_id.clone())) {
            Some(StoredValue::Identity(data)) => data,
            _ => {
                return Ok(false);
            },
        };
        if env.require_auth(&stored.owner).is_err() {
            return Err(ContractError::AuthorizationFailure);
        }
        if permission_type < PERMISSION_READ || permission_type > PERMISSION_FULL {
            return Ok(false);
        }
        let permission = AccessPermission {
            granted_to: granted_to.clone(),
            permission_type,
            expires_at: env.timestamp + duration_seconds,
            is_active: true,
        };
        let _ = env.storage.set(
            DataKey::Access(identity_id.clone(), granted_to.clone()),
            StoredValue::Access(permission),
        );
        env.publish(
            Event {
                event_type: EventType::AccessGranted,
                identity_id,
                data: EventData::Grant(granted_to, permission_type),
            },
        );
        Ok(true)
    }

    /// Deletes the grant of `revoked_from` on the identity `identity_id`,
    /// whether or not there is one.
    ///
    /// Needs proof of identity from the owner of the identity. Returns
    /// `Ok(false)`, and changes nothing, where the identity does not exist.
    pub fn revoke_access(env: &mut Env, identity_id: String, revoked_from: Address) -> (r: Result<
        bool,
        ContractError,
    >)
        ensures
            r == old(env)@.revoke_access_result(identity_id@),
            final(env)@ == old(env)@.after_revoke_access(identity_id@, revoked_from@),
    {
        let stored = match env.storage.get(&DataKey::Identity(identity_id.clone())) {
            Some(StoredValue::Identity(data)) => data,
            _ => {
                return Ok(false);
            },
        };
        if env.require_auth(&stored.owner).is_err() {
            return Err(ContractError::AuthorizationFailure);
        }
        env.storage.remove(&DataKey::Access(identity_id.clone(), revoked_from.clone()));
        env.publish(
            Event {
                event_type: EventType::AccessRevoked,
                identity_id,
                data: EventData::Principal(revoked_from),
            },
        );
        Ok(true)
    }

    /// Assigns the verification level `verification_level` to the identity
    /// `identity_id`.
    ///
    /// Needs proof of identity from the administrator. Returns `Ok(false)`,
    /// and changes nothing, where the identity does not exist or the level is
    /// above 3.
    pub fn verify_identity(env: &mut Env, identity_id: String, verification_level: u32) -> (r:
        Result<bool, ContractError>)
        ensures
            r == old(env)@.verify_identity_result(identity_id@, verification_level),
            final(env)@ == old(env)@.after_verify_identity(identity_id@, verification_level),
    {
        let admin = match env.storage.get(&DataKey::Admin) {
            Some(StoredValue::Admin(admin)) => admin,
            _ => {
                return Err(ContractError::NotInitialized);
            },
        };
        if env.require_auth(admin).is_err() {
            return Err(ContractError::AuthorizationFailure);
        }
        let key = DataKey::Identity(identity_id.clone());
        let stored = match env.storage.get(&key) {
            Some(StoredValue::Identity(data)) => data,
            _ => {
                return Ok(false);
            },
        };
        if verification_level > MAX_VERIFICATION_LEVEL {
            return Ok(false);
        }
        let old_level = stored.verification_level;
        let data = IdentityData {
            owner: stored.owner.clone(),
            full_name: stored.full_name.clone(),
            email: stored.email.clone(),
            document_hash: stored.document_hash.clone(),
            verification_level,
            is_active: stored.is_active,
            created_at: stored.created_at,
            updated_at: env.timestamp,
        };
        let _ = env.storage.set(key, StoredValue::Identity(data));
        env.publish(
            Event {
                event_type: EventType::VerificationLevelChanged,
                identity_id,
                data: EventData::Levels(old_level, verification_level),
            },
        );
        Ok(true)
    }

    /// The record of the identity `identity_id`, where `requester` may read
    /// it: as its owner, or by a grant of any type that is in force now.
    ///
    /// Needs proof of identity from `requester`.
    pub fn get_identity(env: &Env, identity_id: String, requester: Address) -> (r: Result<
        Option<IdentityData>,
        ContractError,
    >)
        ensures
            match r {
                Ok(Some(data)) => env@.get_identity_result(identity_id@, requester@) == Ok::<
                    Option<IdentityRecord>,
                    ContractError,
                >(Some(data@)),
                Ok(None) => env@.get_identity_result(identity_id@, requester@) == Ok::<
                    Option<IdentityRecord>,
                    ContractError,
                >(None),
                Err(e) => env@.get_identity_result(identity_id@, requester@) == Err::<
                    Option<IdentityRecord>,
                    ContractError,
                >(e),
            },
    {
        if env.require_auth(&requester).is_err() {
            return Err(ContractError::AuthorizationFailure);
        }
        let stored = match env.storage.get(&DataKey::Identity(identity_id.clone())) {
            Some(StoredValue::Identity(data)) => data,
            _ => {
                return Ok(None);
            },
        };
        if stored.owner.same(&requester) {
            return Ok(Some(stored.clone()));
        }
        match Self::check_access(env, identity_id, requester) {
            Some(_) => Ok(Some(stored.clone())),
            None => Ok(None),
        }
    }

    /// The grant of `requester` on the identity `identity_id`, where there is
    /// one and it is in force now.
    ///
    /// Needs no proof of identity.
    pub fn check_access(env: &Env, identity_id: String, requester: Address) -> (r: Option<
        AccessPermission,
    >)
        ensures
            match r {
                Some(permission) => env@.check_access_result(identity_id@, requester@) == Some(
                    permission@,
                ),
                None => env@.check_access_result(identity_id@, requester@) is None,
            },
    {
        match env.storage.get(&DataKey::Access(identity_id, requester)) {
            Some(StoredValue::Access(permission)) => {
                if permission.is_effective(env.timestamp) {
                    Some(permission.clone())
                } else {
                    None
                }
            },
            _ => None,
        }
    }

    /// The IDs that `owner` registered, in order of creation.
    ///
    /// Needs proof of identity from `owner`.
    pub fn get_identities_by_owner(env: &Env, owner: Address) -> (r: Result<
        Vec<String>,
        ContractError,
    >)
        ensures
            match r {
                Ok(ids) => env@.get_identities_by_owner_result(owner@) == Ok::<
                    Seq<Seq<char>>,
                    ContractError,
                >(texts(ids@)),
                Err(e) => env@.get_identities_by_owner_result(owner@) == Err::<
                    Seq<Seq<char>>,
                    ContractError,
                >(e),
            },
    {
        if env.require_auth(&owner).is_err() {
            return Err(ContractError::AuthorizationFailure);
        }
        match env.storage.get(&DataKey::IdentityByOwner(owner)) {
            Some(StoredValue::Identities(ids)) => Ok(copy_ids(ids)),
            _ => {
                let ids: Vec<String> = Vec::new();
                proof {
                    assert(texts(ids@) =~= Seq::<Seq<char>>::empty());
                }
                Ok(ids)
            },
        }
    }

    /// Marks the identity `identity_id` as inactive, for good.
    ///
    /// Needs proof of identity from the owner of the identity. Returns
    /// `Ok(false)`, and changes nothing, where the identity does not exist.
    pub fn deactivate_identity(env: &mut Env, identity_id: String) -> (r: Result<
        bool,
        ContractError,
    >)
        ensures
            r == old(env)@.deactivate_identity_result(identity_id@),
            final(env)@ == old(env)@.after_deactivate_identity(identity_id@),
    {
        let key = DataKey::Identity(identity_id);
        let stored = match env.storage.get(&key) {
            Some(StoredValue::Identity(data)) => data,
            _ => {
                return Ok(false);
            },
        };
        if env.require_auth(&stored.owner).is_err() {
            return Err(ContractError::AuthorizationFailure);
        }
        let data = IdentityData {
            owner: stored.owner.clone(),
            full_name: stored.full_name.clone(),
            email: stored.email.clone(),
            document_hash: stored.document_hash.clone(),
            verification_level: stored.verification_level,
            is_active: false,
            created_at: stored.created_at,
            updated_at: env.timestamp,
        };
        let _ = env.storage.set(key, StoredValue::Identity(data));
        Ok(true)
    }

    /// The administrator.
    ///
    /// Fails with `NotInitialized` where none has been set.
    pub fn get_admin(env: &Env) -> (r: Result<Address, ContractError>)
        ensures
            match r {
                Ok(admin) => env@.get_admin_result() == Ok::<Seq<char>, ContractError>(admin@),
                Err(e) => env@.get_admin_result() == Err::<Seq<char>, ContractError>(e),
            },
    {
        match env.storage.get(&DataKey::Admin) {
            Some(StoredValue::Admin(admin)) => Ok(admin.clone()),
            _ => Err(ContractError::NotInitialized),
        }
    }

    /// The number of identities ever created.
    pub fn get_total_identities(env: &Env) -> (total: u32)
        ensures
            total == env@.total(),
    {
        match env.storage.get(&DataKey::TotalIdentities) {
            Some(StoredValue::Total(n)) => *n,
            _ => 0,
        }
    }
}

} // verus!
