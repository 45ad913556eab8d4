//! Notifications that the registry emits when it changes its state.

use vstd::prelude::*;
use crate::address::Address;

verus! {

/// What happened.
#[derive(Clone, Copy, Debug, PartialEq, Eq, Structural)]
pub enum EventType {
    IdentityCreated,
    IdentityUpdated,
    VerificationLevelChanged,
    AccessGranted,
    AccessRevoked,
}

/// What an event carries besides the ID of its identity.
#[derive(Debug, PartialEq, Eq)]
pub enum EventData {
    /// The principal concerned: the owner, or the one whose grant was revoked.
    Principal(Address),
    /// The verification level before and after the change.
    Levels(u32, u32),
    /// The grantee and the permission type granted.
    Grant(Address, u32),
}

/// Mathematical model of an [`EventData`].
pub enum Payload {
    Principal(Seq<char>),
    Levels(u32, u32),
    Grant(Seq<char>, u32),
}

impl View for EventData {
    type V = Payload;

    open spec fn view(&self) -> Payload {
        match self {
            EventData::Principal(p) => Payload::Principal(p@),
            EventData::Levels(before, after) => Payload::Levels(*before, *after),
            EventData::Grant(p, permission_type) => Payload::Grant(p@, *permission_type),
        }
    }
}

/// One notification, keyed by the ID of the identity it is about.
#[derive(Debug, PartialEq, Eq)]
pub struct Event {
    pub event_type: EventType,
    pub identity_id: String,
    pub data: EventData,
}

/// Mathematical model of an [`Event`].
pub struct Notification {
    pub event_type: EventType,
    pub identity_id: Seq<char>,
    pub data: Payload,
}

impl View for Event {
    type V = Notification;

    open spec fn view(&self) -> Notification {
        Notification {
            event_type: self.event_type,
            identity_id: self.identity_id@,
            data: self.data@,
        }
    }
}

} // verus!
