//! The hazard slot: a published address paired with an ownership flag.
//!
//! A slot is in one of three states: *free* (`active` false, nothing
//! published), *idle* (`active` true, nothing published) or *guarding*
//! (`active` true, an address published). `try_acquire` takes a free slot
//! to idle, `protect` to guarding, `reset` back to idle, and `release` —
//! which asks that the address be withdrawn first — returns it to free.

use vstd::prelude::*;

verus! {

/// One hazard slot of a domain's pool.
///
/// `protected` holds the address — an index into the owning domain's cell
/// store — that the owning reader currently vouches for; `None` plays the
/// role of the null address. `active` is true while some anchor owns the
/// slot. In a concurrent implementation both fields are atomics; here they
/// are plain values and the slot is reached through `&mut`.
#[derive(Clone, Copy, Debug)]
pub struct HazPtr {
    /// The address the owning reader is currently vouching for.
    pub protected: Option<usize>,
    /// True while some anchor owns this slot.
    pub active: bool,
}

/// The transition that one `try_acquire` call makes: the claim is granted
/// exactly when the slot was inactive, and the slot is active afterwards
/// either way.
pub open spec fn try_acquire_post(pre: HazPtr, post: HazPtr, granted: bool) -> bool {
    &&& granted == !pre.active
    &&& post.active
    &&& post.protected == pre.protected
}

impl HazPtr {
    /// A fresh slot: nothing published, the ownership flag as given.
    pub fn new(active: bool) -> (s: Self)
        ensures
            s == (HazPtr { protected: None, active: active }),
    {
        HazPtr { protected: None, active }
    }

    /// The currently published address; read by reclamation's slot scan.
    pub fn ptr(&self) -> (r: Option<usize>)
        ensures
            r == self.protected,
    {
        self.protected
    }

    /// Withdraws the published address.
    pub fn reset(&mut self)
        ensures
            *final(self) == (HazPtr { protected: None, active: old(self).active }),
    {
        self.protected = None;
    }

    /// Publishes `addr`: the owning reader vouches for it from here on.
    pub fn protect(&mut self, addr: usize)
        ensures
            *final(self) == (HazPtr { protected: Some(addr), active: old(self).active }),
    {
        self.protected = Some(addr);
    }

    /// Returns the slot to the pool. The published address must already have
    /// been withdrawn, so that no stale protection outlives the owner.
    pub fn release(&mut self)
        requires
            old(self).protected is None,
        ensures
            *final(self) == (HazPtr { protected: None, active: false }),
    {
        self.active = false;
    }

    /// Claims the slot if it is free. The claim is granted to at most one
    /// caller until a matching `release`: a granted claim leaves the slot
    /// active, and an active slot grants no claim.
    pub fn try_acquire(&mut self) -> (granted: bool)
        ensures
            try_acquire_post(*old(self), *final(self), granted),
    {
        let was_active = self.active;
        if !was_active {
            self.active = true;
            true
        } else {
            false
        }
    }
}

/// A slot that a granted `try_acquire` left active grants no further claim:
/// between a grant and the matching `release`, every other attempt is turned
/// away.
pub proof fn lemma_try_acquire_exclusive(s0: HazPtr, s1: HazPtr, s2: HazPtr, g1: bool, g2: bool)
    requires
        try_acquire_post(s0, s1, g1),
        try_acquire_post(s1, s2, g2),
    ensures
        !(g1 && g2),
        !g2,
{
}

} // verus!
