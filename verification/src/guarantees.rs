//! What holds of the registry across operations.
//!
//! The theorems here are stated over the model of the environment and the
//! transition functions that the contracts of the operations are stated over.
//! Between two invocations the ledger time and the principals that have
//! proved their identity may change; the store and the event log do not.

use vstd::prelude::*;
use crate::env::{ContractError, EnvState};
use crate::records::{IdentityRecord, MAX_VERIFICATION_LEVEL};
use crate::transitions::new_record;

verus! {

/// A successful registration can be read back by its owner, and the record
/// read is the one that was registered: unverified, active, and never updated
/// since its creation.
pub proof fn lemma_registered_identity_reads_back(
    pre: EnvState,
    id: Seq<char>,
    owner: Seq<char>,
    full_name: Seq<char>,
    email: Seq<char>,
    document_hash: Seq<u8>,
)
    requires
        pre.register_identity_result(id, owner) == Ok::<bool, ContractError>(true),
    ensures
        ({
            let post = pre.after_register_identity(id, owner, full_name, email, document_hash);
            let record = new_record(owner, full_name, email, document_hash, pre.timestamp);
            &&& post.get_identity_result(id, owner) == Ok::<Option<IdentityRecord>, ContractError>(
                Some(record),
            )
            &&& record.verification_level == 0
            &&& record.is_active
            &&& record.created_at == record.updated_at
        }),
{
}

/// After a successful registration, a second registration under the same ID
/// fails, whoever attempts it and whenever: it returns `Ok(false)` where the
/// second owner has proved its identity and an authorization failure where
/// not, and it leaves the whole state, the first record and the count with
/// it, unchanged.
pub proof fn lemma_second_registration_fails(
    pre: EnvState,
    id: Seq<char>,
    owner: Seq<char>,
    full_name: Seq<char>,
    email: Seq<char>,
    document_hash: Seq<u8>,
    later: u64,
    authorized: Seq<Seq<char>>,
    second_owner: Seq<char>,
    second_name: Seq<char>,
    second_email: Seq<char>,
    second_hash: Seq<u8>,
)
    requires
        pre.register_identity_result(id, owner) == Ok::<bool, ContractError>(true),
    ensures
        ({
            let first = pre.after_register_identity(id, owner, full_name, email, document_hash);
            let mid = first.at_time(later).with_authorized(authorized);
            let post = mid.after_register_identity(
                id,
                second_owner,
                second_name,
                second_email,
                second_hash,
            );
            &&& mid.register_identity_result(id, second_owner) == if mid.authorizes(
                second_owner,
            ) {
                Ok::<bool, ContractError>(false)
            } else {
                Err::<bool, ContractError>(ContractError::AuthorizationFailure)
            }
            &&& post == mid
            &&& post.identity(id) == first.identity(id)
            &&& post.total() == first.total()
        }),
{
}

/// After a successful grant, the grantee can read the identity from the time
/// of the grant up to and including the time of expiry; after that time a
/// grantee that is not the owner reads nothing.
pub proof fn lemma_grant_opens_read_until_expiry(
    pre: EnvState,
    id: Seq<char>,
    grantee: Seq<char>,
    permission_type: u32,
    duration_seconds: u64,
    later: u64,
    authorized: Seq<Seq<char>>,
)
    requires
        pre.timestamp + duration_seconds <= u64::MAX,
        pre.grant_access_result(id, permission_type) == Ok::<bool, ContractError>(true),
        pre.timestamp <= later,
        authorized.contains(grantee),
    ensures
        ({
            let post = pre.after_grant_access(id, grantee, permission_type, duration_seconds);
            let read = post.at_time(later).with_authorized(authorized).get_identity_result(
                id,
                grantee,
            );
            let record = pre.identity(id).unwrap();
            &&& later <= pre.timestamp + duration_seconds ==> read == Ok::<
                Option<IdentityRecord>,
                ContractError,
            >(Some(record))
            &&& later > pre.timestamp + duration_seconds && grantee != record.owner ==> read
                == Ok::<Option<IdentityRecord>, ContractError>(None)
        }),
{
}

/// After a successful revocation the grantee has no grant in force on the
/// identity, whatever grant it had before and whatever the time.
pub proof fn lemma_revocation_closes_access(
    pre: EnvState,
    id: Seq<char>,
    grantee: Seq<char>,
    later: u64,
    authorized: Seq<Seq<char>>,
)
    requires
        pre.revoke_access_result(id) == Ok::<bool, ContractError>(true),
    ensures
        pre.after_revoke_access(id, grantee).at_time(later).with_authorized(
            authorized,
        ).check_access_result(id, grantee) is None,
{
}

/// A verification without proof of identity from the administrator fails with
/// an authorization failure and changes nothing. With that proof, on an
/// identity that exists and with a level in range, it succeeds, sets the
/// level, refreshes `updated_at` and leaves the rest of the record alone.
pub proof fn lemma_only_admin_verifies(pre: EnvState, id: Seq<char>, level: u32)
    requires
        pre.admin() is Some,
    ensures
        ({
            let admin = pre.admin().unwrap();
            let post = pre.after_verify_identity(id, level);
            &&& !pre.authorizes(admin) ==> {
                &&& pre.verify_identity_result(id, level) == Err::<bool, ContractError>(
                    ContractError::AuthorizationFailure,
                )
                &&& post == pre
            }
            &&& pre.authorizes(admin) && pre.identity(id) is Some && level
                <= MAX_VERIFICATION_LEVEL ==> {
                &&& pre.verify_identity_result(id, level) == Ok::<bool, ContractError>(true)
                &&& post.identity(id) == Some(
                    IdentityRecord {
                        verification_level: level,
                        updated_at: pre.timestamp,
                        ..pre.identity(id).unwrap()
                    },
                )
            }
        }),
{
}

/// A verification with a level out of range never applies and changes
/// nothing.
pub proof fn lemma_level_out_of_range_is_refused(pre: EnvState, id: Seq<char>, level: u32)
    requires
        level > MAX_VERIFICATION_LEVEL,
    ensures
        pre.verify_identity_result(id, level) != Ok::<bool, ContractError>(true),
        pre.authorizes_admin() ==> pre.verify_identity_result(id, level) == Ok::<
            bool,
            ContractError,
        >(false),
        pre.after_verify_identity(id, level) == pre,
{
}

/// An operation of the registry that can change the state, with its
/// arguments.
pub enum Operation {
    Initialize { admin: Seq<char> },
    RegisterIdentity {
        id: Seq<char>,
        owner: Seq<char>,
        full_name: Seq<char>,
        email: Seq<char>,
        document_hash: Seq<u8>,
    },
    UpdateIdentity {
        id: Seq<char>,
        full_name: Seq<char>,
        email: Seq<char>,
        document_hash: Seq<u8>,
    },
    GrantAccess { id: Seq<char>, grantee: Seq<char>, permission_type: u32, duration_seconds: u64 },
    RevokeAccess { id: Seq<char>, grantee: Seq<char> },
    VerifyIdentity { id: Seq<char>, level: u32 },
    DeactivateIdentity { id: Seq<char> },
}

/// One invocation of the registry: the ledger time at which it runs, the
/// principals that have proved their identity for it, and the operation.
pub struct Invocation {
    pub timestamp: u64,
    pub authorized: Seq<Seq<char>>,
    pub operation: Operation,
}

/// The state after `operation`.
pub open spec fn apply(pre: EnvState, operation: Operation) -> EnvState {
    match operation {
        Operation::Initialize { admin } => pre.after_initialize(admin),
        Operation::RegisterIdentity { id, owner, full_name, email, document_hash } =>
            pre.after_register_identity(id, owner, full_name, email, document_hash),
        Operation::UpdateIdentity { id, full_name, email, document_hash } =>
            pre.after_update_identity(id, full_name, email, document_hash),
        Operation::GrantAccess { id, grantee, permission_type, duration_seconds } =>
            pre.after_grant_access(id, grantee, permission_type, duration_seconds),
        Operation::RevokeAccess { id, grantee } => pre.after_revoke_access(id, grantee),
        Operation::VerifyIdentity { id, level } => pre.after_verify_identity(id, level),
        Operation::DeactivateIdentity { id } => pre.after_deactivate_identity(id),
    }
}

/// The state after `invocation`.
pub open spec fn invoke(pre: EnvState, invocation: Invocation) -> EnvState {
    apply(
        pre.at_time(invocation.timestamp).with_authorized(invocation.authorized),
        invocation.operation,
    )
}

/// The state after `invocations`, run in order.
pub open spec fn run(pre: EnvState, invocations: Seq<Invocation>) -> EnvState
    decreases invocations.len(),
{
    if invocations.len() == 0 {
        pre
    } else {
        invoke(run(pre, invocations.drop_last()), invocations.last())
    }
}

/// Whether the ledger time never goes back from `start` through
/// `invocations`.
pub open spec fn clock_is_monotonic(start: u64, invocations: Seq<Invocation>) -> bool {
    &&& forall|i: int| 0 <= i < invocations.len() ==> start <= (#[trigger] invocations[i]).timestamp
    &&& forall|i: int, j: int|
        0 <= i <= j < invocations.len() ==> (#[trigger] invocations[i]).timestamp <= (
        #[trigger] invocations[j]).timestamp
}

impl EnvState {
    /// Whether the identity `id` exists and is inactive.
    pub open spec fn is_deactivated(self, id: Seq<char>) -> bool {
        match self.identity(id) {
            Some(record) => !record.is_active,
            None => false,
        }
    }

    /// The invariant of the stored data: no record has a level out of range, an
    /// update before its creation or an update in the future, and every grant
    /// has a permission type in range and names the grantee it is kept under.
    pub open spec fn consistent(self) -> bool {
        &&& forall|id: Seq<char>| #[trigger]
            self.identity(id) is Some ==> self.identity(id).unwrap().valid_at(self.timestamp)
        &&& forall|id: Seq<char>, grantee: Seq<char>| #[trigger]
            self.grant(id, grantee) is Some ==> {
                &&& self.grant(id, grantee).unwrap().valid()
                &&& self.grant(id, grantee).unwrap().granted_to == grantee
            }
    }
}

/// No operation reactivates an identity: one that is inactive before an
/// invocation is inactive after it.
pub proof fn lemma_invocation_keeps_inactive(pre: EnvState, invocation: Invocation, id: Seq<char>)
    requires
        pre.is_deactivated(id),
    ensures
        invoke(pre, invocation).is_deactivated(id),
{
}

/// Deactivation is final: after a successful deactivation the identity is
/// inactive, and it stays so through every sequence of invocations.
pub proof fn theorem_deactivation_is_final(
    pre: EnvState,
    id: Seq<char>,
    invocations: Seq<Invocation>,
)
    requires
        pre.deactivate_identity_result(id) == Ok::<bool, ContractError>(true),
    ensures
        run(pre.after_deactivate_identity(id), invocations).is_deactivated(id),
    decreases invocations.len(),
{
    if invocations.len() > 0 {
        theorem_deactivation_is_final(pre, id, invocations.drop_last());
        lemma_invocation_keeps_inactive(
            run(pre.after_deactivate_identity(id), invocations.drop_last()),
            invocations.last(),
            id,
        );
    }
}

/// An identity that exists keeps its owner and its time of creation through
/// every invocation.
pub proof fn lemma_invocation_keeps_owner(pre: EnvState, invocation: Invocation, id: Seq<char>)
    requires
        pre.identity(id) is Some,
    ensures
        invoke(pre, invocation).identity(id) is Some,
        invoke(pre, invocation).identity(id).unwrap().owner == pre.identity(id).unwrap().owner,
        invoke(pre, invocation).identity(id).unwrap().created_at == pre.identity(
            id,
        ).unwrap().created_at,
{
}

/// An identity that exists keeps its owner and its time of creation through
/// every sequence of invocations.
pub proof fn theorem_owner_never_changes(
    pre: EnvState,
    id: Seq<char>,
    invocations: Seq<Invocation>,
)
    requires
        pre.identity(id) is Some,
    ensures
        run(pre, invocations).identity(id) is Some,
        run(pre, invocations).identity(id).unwrap().owner == pre.identity(id).unwrap().owner,
        run(pre, invocations).identity(id).unwrap().created_at == pre.identity(
            id,
        ).unwrap().created_at,
    decreases invocations.len(),
{
    if invocations.len() > 0 {
        theorem_owner_never_changes(pre, id, invocations.drop_last());
        lemma_invocation_keeps_owner(run(pre, invocations.drop_last()), invocations.last(), id);
    }
}

/// An invocation at a ledger time that is not before that of the state keeps
/// the stored data consistent.
pub proof fn lemma_invocation_keeps_consistent(pre: EnvState, invocation: Invocation)
    requires
        pre.consistent(),
        pre.timestamp <= invocation.timestamp,
    ensures
        invoke(pre, invocation).consistent(),
        invoke(pre, invocation).timestamp == invocation.timestamp,
{
    let start = pre.at_time(invocation.timestamp).with_authorized(invocation.authorized);
    let post = invoke(pre, invocation);
    assert forall|id: Seq<char>| #[trigger] post.identity(id) is Some implies post.identity(
        id,
    ).unwrap().valid_at(post.timestamp) by {
        if start.identity(id) is Some {
            assert(pre.identity(id) is Some);
        }
    }
    assert forall|id: Seq<char>, grantee: Seq<char>| #[trigger]
        post.grant(id, grantee) is Some implies {
        &&& post.grant(id, grantee).unwrap().valid()
        &&& post.grant(id, grantee).unwrap().granted_to == grantee
    } by {
        if start.grant(id, grantee) is Some {
            assert(pre.grant(id, grantee) is Some);
        }
    }
}

/// While the ledger time never goes back, the stored data stays consistent
/// through every sequence of invocations.
pub proof fn theorem_data_stays_consistent(pre: EnvState, invocations: Seq<Invocation>)
    requires
        pre.consistent(),
        clock_is_monotonic(pre.timestamp, invocations),
    ensures
        run(pre, invocations).consistent(),
        run(pre, invocations).timestamp == if invocations.len() == 0 {
            pre.timestamp
        } else {
            invocations.last().timestamp
        },
    decreases invocations.len(),
{
    if invocations.len() > 0 {
        let earlier = invocations.drop_last();
        assert forall|i: int| 0 <= i < earlier.len() implies #[trigger] earlier[i]
            == invocations[i] by {}
        assert(clock_is_monotonic(pre.timestamp, earlier));
        theorem_data_stays_consistent(pre, earlier);
        if earlier.len() > 0 {
            assert(earlier.last() == invocations[earlier.len() - 1]);
        }
        lemma_invocation_keeps_consistent(run(pre, earlier), invocations.last());
    }
}

} // verus!
