//! The registry of connected peers, which keeps one address from holding
//! two connections at a time.
//!
//! The registry is shared by all sessions, and every session changes it
//! while the others run. Nothing can therefore be said of what it holds at
//! a given moment: the functions here say what they hand to it and what
//! they conclude from each of its answers.

use crate::server::ServerInitFailReason;
use dashmap::DashSet;
use vstd::prelude::*;

verus! {

/// `dashmap::DashSet`, a set that many threads change at once. It is
/// carried as it is.
#[verifier::external_type_specification]
#[verifier::external_body]
#[verifier::reject_recursive_types(K)]
#[verifier::reject_recursive_types(S)]
pub struct ExDashSet<K, S>(DashSet<K, S>);

/// What an address comes down to: its family, 4 or 6, and its bits as a
/// number. Addresses of different families are different peers.
pub type PeerKey = (u8, u128);

/// What becomes of an accepted connection.
#[derive(Debug, Clone, PartialEq, Eq)]
pub enum Admission {
    /// The session goes on to the handshake.
    Admitted,
    /// The session ends at once; the reason is sent to the peer first.
    Rejected(ServerInitFailReason),
}

/// `DashSet::insert`: adds the key. The answer tells whether the key was
/// new to the set at that moment; with other sessions at work on the same
/// set, either answer may come.
#[verifier::external_body]
fn registry_insert(registry: &DashSet<PeerKey>, peer: PeerKey) -> bool {
    registry.insert(peer)
}

/// `DashSet::remove`: takes the key out, whether or not it was there.
#[verifier::external_body]
fn registry_remove(registry: &DashSet<PeerKey>, peer: PeerKey) {
    let _ = registry.remove(&peer);
}

/// What follows for a connection from the registry's answer: where
/// duplicates are rejected, a peer that was already registered is rejected
/// as already connected; every other connection is admitted.
pub open spec fn admission_for(reject_duplicates: bool, newly_registered: bool) -> Admission {
    if reject_duplicates && !newly_registered {
        Admission::Rejected(ServerInitFailReason::AlreadyConnected)
    } else {
        Admission::Admitted
    }
}

/// Decides on a connection from the registry's answer.
pub fn admission(reject_duplicates: bool, newly_registered: bool) -> (a: Admission)
    ensures
        a == admission_for(reject_duplicates, newly_registered),
{
    if reject_duplicates && !newly_registered {
        Admission::Rejected(ServerInitFailReason::AlreadyConnected)
    } else {
        Admission::Admitted
    }
}

/// Registers an accepted connection and decides on it. The peer is handed
/// to the registry in every case; the registry's answer counts only where
/// duplicates are rejected, so that elsewhere every connection is admitted.
/// A connection that is rejected must not be released afterwards: the entry
/// belongs to the connection that came first.
pub fn register(registry: &DashSet<PeerKey>, peer: PeerKey, reject_duplicates: bool) -> (a: Admission)
    ensures
        !reject_duplicates ==> a == Admission::Admitted,
        a == Admission::Admitted || a == Admission::Rejected(
            ServerInitFailReason::AlreadyConnected,
        ),
{
    let newly_registered = registry_insert(registry, peer);
    admission(reject_duplicates, newly_registered)
}

/// Takes the peer of an ended session out of the registry, whatever ended
/// the session.
pub fn release(registry: &DashSet<PeerKey>, peer: PeerKey) {
    registry_remove(registry, peer);
}

} // verus!
