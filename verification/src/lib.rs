//! Hazard-pointer style deferred reclamation.
//!
//! A *hazard-box* is an owning pointer whose value can be swapped out; the old
//! value is not destroyed at once but *retired* to a *domain*, which destroys
//! it only once no reader still vouches for its address. A reader takes an
//! *anchor* (one hazard slot of a domain) and *moors* it to a box: the slot
//! then publishes the address the reader is inspecting, and reclamation
//! spares every published address.
//!
//! The state that a concurrent implementation would keep behind atomics — the
//! slot pool, the retired list, the cell store that plays the role of the
//! heap — is held here in plain fields of the domain, and every operation
//! takes the domain by `&mut`. Addresses are indices into the domain's cell
//! store; a cell is either `Live` with its value or `Reclaimed` after its
//! destructor has run. On this model the reclamation rules are stated and
//! proved exactly: a published address is never reclaimed, retirement reclaims
//! precisely the unprotected retired cells, and the threshold and timed
//! triggers fire exactly when their conditions hold.

use vstd::prelude::*;

pub mod anchor;
pub mod domain;
pub mod hazbox;
pub mod hazptr;
pub mod node_list;
pub mod retire;

verus! {

/// Marks a type as being able to be protected behind a hazard-box.
///
/// Every type may be protected: values live in the cell store of their
/// domain, and the domain's lifetime bounds the time of their destruction.
pub trait Hazard {
}

impl<T> Hazard for T {
}

/// The reader-side half of the asymmetric fence pair.
///
/// In a concurrent implementation this orders a reader's publish store before
/// its verify reload. With the domain held by `&mut`, every operation is
/// already ordered; the call marks the protocol's ordering point and does
/// nothing else.
pub fn light() {
}

/// The retirer-side half of the asymmetric fence pair.
///
/// In a concurrent implementation this orders the steal of the retired list
/// before the scan of the hazard slots, so that every publish that precedes
/// the scan is seen. With the domain held by `&mut` the ordering is given;
/// the call marks the protocol's ordering point and does nothing else.
pub fn heavy() {
}

} // verus!
