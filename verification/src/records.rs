//! Identity records and access grants, with their mathematical models.

use vstd::prelude::*;
use crate::address::Address;

verus! {

/// The highest verification level an administrator can assign.
pub const MAX_VERIFICATION_LEVEL: u32 = 3;

/// Permission type of a grant that allows reading.
pub const PERMISSION_READ: u32 = 1;

/// Permission type of a grant that allows verifying.
pub const PERMISSION_VERIFY: u32 = 2;

/// Permission type of a grant that allows everything.
pub const PERMISSION_FULL: u32 = 3;

/// One identity, as it is kept in the store.
#[derive(Debug, PartialEq, Eq)]
pub struct IdentityData {
    /// The principal that created the identity and alone may change it.
    pub owner: Address,
    pub full_name: String,
    pub email: String,
    /// Digest of a document that is held elsewhere.
    pub document_hash: Vec<u8>,
    /// Trust tier assigned by the administrator, from 0 to 3.
    pub verification_level: u32,
    pub is_active: bool,
    pub created_at: u64,
    pub updated_at: u64,
}

/// Mathematical model of an [`IdentityData`].
pub struct IdentityRecord {
    pub owner: Seq<char>,
    pub full_name: Seq<char>,
    pub email: Seq<char>,
    pub document_hash: Seq<u8>,
    pub verification_level: u32,
    pub is_active: bool,
    pub created_at: u64,
    pub updated_at: u64,
}

impl IdentityRecord {
    /// The invariant of a record written at or before `now`: its level is in
    /// range and it was not updated before it was created, nor after `now`.
    pub open spec fn valid_at(self, now: u64) -> bool {
        &&& self.verification_level <= MAX_VERIFICATION_LEVEL
        &&& self.created_at <= self.updated_at
        &&& self.updated_at <= now
    }
}

impl View for IdentityData {
    type V = IdentityRecord;

    open spec fn view(&self) -> IdentityRecord {
        IdentityRecord {
            owner: self.owner@,
            full_name: self.full_name@,
            email: self.email@,
            document_hash: self.document_hash@,
            verification_level: self.verification_level,
            is_active: self.is_active,
            created_at: self.created_at,
            updated_at: self.updated_at,
        }
    }
}

impl Clone for IdentityData {
    fn clone(&self) -> (r: IdentityData)
        ensures
            r@ == self@,
    {
        IdentityData {
            owner: self.owner.clone(),
            full_name: self.full_name.clone(),
            email: self.email.clone(),
            document_hash: self.document_hash.clone(),
            verification_level: self.verification_level,
            is_active: self.is_active,
            created_at: self.created_at,
            updated_at: self.updated_at,
        }
    }
}

/// One delegated permission on an identity, as it is kept in the store.
#[derive(Debug, PartialEq, Eq)]
pub struct AccessPermission {
    pub granted_to: Address,
    /// 1 to read, 2 to verify, 3 for everything.
    pub permission_type: u32,
    /// The last second at which the grant is in force.
    pub expires_at: u64,
    pub is_active: bool,
}

/// Mathematical model of an [`AccessPermission`].
pub struct AccessGrant {
    pub granted_to: Seq<char>,
    pub permission_type: u32,
    pub expires_at: u64,
    pub is_active: bool,
}

impl AccessGrant {
    /// A grant is effective at `now` if it is active and has not expired.
    pub open spec fn effective_at(self, now: u64) -> bool {
        self.is_active && now <= self.expires_at
    }

    /// The permission type is one of read, verify, full.
    pub open spec fn valid(self) -> bool {
        PERMISSION_READ <= self.permission_type <= PERMISSION_FULL
    }
}

impl View for AccessPermission {
    type V = AccessGrant;

    open spec fn view(&self) -> AccessGrant {
        AccessGrant {
            granted_to: self.granted_to@,
            permission_type: self.permission_type,
            expires_at: self.expires_at,
            is_active: self.is_active,
        }
    }
}

impl AccessPermission {
    /// Whether the grant is in force at `now`.
    pub fn is_effective(&self, now: u64) -> (b: bool)
        ensures
            b == self@.effective_at(now),
    {
        self.is_active && now <= self.expires_at
    }
}

impl Clone for AccessPermission {
    fn clone(&self) -> (r: AccessPermission)
        ensures
            r@ == self@,
    {
        AccessPermission {
            granted_to: self.granted_to.clone(),
            permission_type: self.permission_type,
            expires_at: self.expires_at,
            is_active: self.is_active,
        }
    }
}

} // verus!
