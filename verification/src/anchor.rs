//! The anchor: a reader's hold on one hazard slot, and the publish-verify
//! protocol that yields a safe read of a hazard-box.

use vstd::prelude::*;

use crate::domain::global::GlobalDomain;
use crate::domain::Domain;
use crate::hazbox::HazBox;
use crate::hazptr::HazPtr;

verus! {

/// What a moor leaves in the reader's slot: the box's current address
/// published, the ownership flag as it was. The result depends on the box
/// alone — not on what the slot published before — which is why mooring is
/// idempotent and insensitive to an intervening reset.
pub open spec fn moored_slot(s: HazPtr, src: HazBox) -> HazPtr {
    HazPtr { protected: Some(src.addr_spec()), active: s.active }
}

/// A withdrawn slot: nothing published, the ownership flag as it was.
pub open spec fn reset_slot_spec(s: HazPtr) -> HazPtr {
    HazPtr { protected: None, active: s.active }
}

/// Mooring an unchanged box twice from one anchor returns the same address
/// both times: the published address is a function of the box alone.
pub proof fn lemma_moor_idempotent(src: HazBox, a1: usize, a2: usize)
    requires
        a1 == src.addr_spec(),
        a2 == src.addr_spec(),
    ensures
        a1 == a2,
{
}

/// `reset` before a moor changes nothing about the moor: publishing
/// overwrites whatever the slot held, so a moor from a reset slot and a
/// moor from an untouched slot leave the same slot behind.
pub proof fn lemma_reset_then_moor(s: HazPtr, src: HazBox)
    ensures
        moored_slot(reset_slot_spec(s), src) == moored_slot(s, src),
{
}

/// A reader's hold on one hazard slot of a domain.
pub struct Anchor {
    slot: usize,
    dom_id: u64,
}

impl Anchor {
    /// The index of the slot this anchor owns.
    pub closed spec fn slot_spec(&self) -> usize {
        self.slot
    }

    /// The identity of the domain the slot belongs to.
    pub closed spec fn domain_spec(&self) -> u64 {
        self.dom_id
    }

    /// The anchor against its domain: the slot exists and is active — the
    /// anchor owns it exclusively, for no `try_acquire` grants an active
    /// slot again before a release.
    pub open spec fn valid_in<D: Domain>(&self, dom: D) -> bool {
        &&& self.domain_spec() == dom.id_spec()
        &&& (self.slot_spec() as int) < dom.slots_spec().len()
        &&& dom.slots_spec()[self.slot_spec() as int].active
    }

    /// An anchor on the process-wide domain, which always has a slot to
    /// give.
    pub fn new<T>(dom: &mut GlobalDomain<T>) -> (a: Self)
        requires
            old(dom).inv(),
            old(dom).slot_count_spec() < u64::MAX,
        ensures
            final(dom).inv(),
            final(dom).id_spec() == old(dom).id_spec(),
            final(dom).cells_spec() == old(dom).cells_spec(),
            final(dom).retired_spec() == old(dom).retired_spec(),
            final(dom).retired_count_spec() == old(dom).retired_count_spec(),
            final(dom).sync_time_spec() == old(dom).sync_time_spec(),
            a.valid_in(*final(dom)),
            a.domain_spec() == old(dom).id_spec(),
            final(dom).slots_spec()[a.slot_spec() as int]
                == (HazPtr { protected: None, active: true }),
            (a.slot_spec() as int) < old(dom).slots_spec().len()
                ==> !old(dom).slots_spec()[a.slot_spec() as int].active,
            old(dom).slots_spec().len() <= final(dom).slots_spec().len()
                <= old(dom).slots_spec().len() + 1,
            forall|j: int| 0 <= j < old(dom).slots_spec().len() && j != a.slot_spec() as int
                ==> final(dom).slots_spec()[j] == old(dom).slots_spec()[j],
    {
        Self::new_in(dom)
    }

    /// An anchor on the given domain, `None` on slot exhaustion. Both
    /// domain flavours here create slots on demand, so the result is
    /// always `Some`.
    pub fn try_new_in<D: Domain>(dom: &mut D) -> (r: Option<Self>)
        requires
            old(dom).inv(),
            old(dom).slot_count_spec() < u64::MAX,
        ensures
            final(dom).inv(),
            final(dom).id_spec() == old(dom).id_spec(),
            final(dom).cells_spec() == old(dom).cells_spec(),
            final(dom).retired_spec() == old(dom).retired_spec(),
            final(dom).retired_count_spec() == old(dom).retired_count_spec(),
            final(dom).sync_time_spec() == old(dom).sync_time_spec(),
            r is Some,
            r matches Some(a) ==> ({
                &&& a.valid_in(*final(dom))
                &&& a.domain_spec() == old(dom).id_spec()
                &&& final(dom).slots_spec()[a.slot_spec() as int]
                    == (HazPtr { protected: None, active: true })
                &&& ((a.slot_spec() as int) < old(dom).slots_spec().len()
                    ==> !old(dom).slots_spec()[a.slot_spec() as int].active)
                &&& old(dom).slots_spec().len() <= final(dom).slots_spec().len()
                    <= old(dom).slots_spec().len() + 1
                &&& forall|j: int| 0 <= j < old(dom).slots_spec().len() && j != a.slot_spec() as int
                    ==> final(dom).slots_spec()[j] == old(dom).slots_spec()[j]
            }),
    {
        let slot = match dom.acquire() {
            Some(i) => i,
            None => vstd::pervasive::unreached(),
        };
        let id = dom.id();
        Some(Anchor { slot, dom_id: id })
    }

    /// An anchor on the given domain; would abort on exhaustion, which the
    /// on-demand pools here never report.
    pub fn new_in<D: Domain>(dom: &mut D) -> (a: Self)
        requires
            old(dom).inv(),
            old(dom).slot_count_spec() < u64::MAX,
        ensures
            final(dom).inv(),
            final(dom).id_spec() == old(dom).id_spec(),
            final(dom).cells_spec() == old(dom).cells_spec(),
            final(dom).retired_spec() == old(dom).retired_spec(),
            final(dom).retired_count_spec() == old(dom).retired_count_spec(),
            final(dom).sync_time_spec() == old(dom).sync_time_spec(),
            a.valid_in(*final(dom)),
            a.domain_spec() == old(dom).id_spec(),
            final(dom).slots_spec()[a.slot_spec() as int]
                == (HazPtr { protected: None, active: true }),
            (a.slot_spec() as int) < old(dom).slots_spec().len()
                ==> !old(dom).slots_spec()[a.slot_spec() as int].active,
            old(dom).slots_spec().len() <= final(dom).slots_spec().len()
                <= old(dom).slots_spec().len() + 1,
            forall|j: int| 0 <= j < old(dom).slots_spec().len() && j != a.slot_spec() as int
                ==> final(dom).slots_spec()[j] == old(dom).slots_spec()[j],
    {
        match Self::try_new_in(dom) {
            Some(a) => a,
            None => vstd::pervasive::unreached(),
        }
    }

    /// The identity of the anchor's domain.
    pub fn domain(&self) -> (d: u64)
        ensures
            d == self.domain_spec(),
    {
        self.dom_id
    }

    /// One round of the publish-verify protocol: publish `expected`, fence,
    /// reload the box's pointer. The reload observes exactly the box's
    /// installed address — one whole value, never a torn one. If it matches
    /// `expected`, the slot now guards that address and the read is safe;
    /// otherwise the slot is withdrawn and the fresh address is handed back
    /// for the caller's own retry logic.
    pub fn try_moor<D: Domain>(&self, dom: &mut D, src: &HazBox, expected: usize) -> (r: Result<
        usize,
        usize,
    >)
        requires
            old(dom).inv(),
            self.valid_in(*old(dom)),
            src.valid_in(*old(dom)),
            self.domain_spec() == src.domain_spec(),
        ensures
            final(dom).inv(),
            final(dom).id_spec() == old(dom).id_spec(),
            final(dom).cells_spec() == old(dom).cells_spec(),
            final(dom).retired_spec() == old(dom).retired_spec(),
            final(dom).retired_count_spec() == old(dom).retired_count_spec(),
            final(dom).sync_time_spec() == old(dom).sync_time_spec(),
            final(dom).slot_count_spec() == old(dom).slot_count_spec(),
            r matches Ok(a) ==> ({
                &&& a == src.addr_spec()
                &&& expected == src.addr_spec()
                &&& final(dom).slots_spec() == old(dom).slots_spec()
                    .update(self.slot_spec() as int, moored_slot(old(dom).slots_spec()[self.slot_spec() as int], *src))
                &&& final(dom).cells_spec()[a as int] is Live
            }),
            r matches Err(e) ==> ({
                &&& e == src.addr_spec()
                &&& expected != src.addr_spec()
                &&& final(dom).slots_spec() == old(dom).slots_spec()
                    .update(self.slot_spec() as int, reset_slot_spec(old(dom).slots_spec()[self.slot_spec() as int]))
            }),
    {
        dom.protect_slot(self.slot, expected);

        crate::light();

        let actual = src.addr();

        if expected == actual {
            Ok(actual)
        } else {
            dom.reset_slot(self.slot);
            proof {
                assert(dom.slots_spec() =~= old(dom).slots_spec()
                    .update(self.slot_spec() as int, reset_slot_spec(old(dom).slots_spec()[self.slot_spec() as int])));
            }
            Err(actual)
        }
    }

    /// Moors the anchor to a box: publishes the box's current address and
    /// returns it, the slot guarding it from reclamation from here on. The
    /// concurrent protocol loops publish-verify until the verify reload
    /// matches; with the domain held by `&mut`, no writer can intervene
    /// between publish and verify, so the first round verifies.
    pub fn moor<D: Domain>(&self, dom: &mut D, src: &HazBox) -> (a: usize)
        requires
            old(dom).inv(),
            self.valid_in(*old(dom)),
            src.valid_in(*old(dom)),
            self.domain_spec() == src.domain_spec(),
        ensures
            final(dom).inv(),
            final(dom).id_spec() == old(dom).id_spec(),
            final(dom).cells_spec() == old(dom).cells_spec(),
            final(dom).retired_spec() == old(dom).retired_spec(),
            final(dom).retired_count_spec() == old(dom).retired_count_spec(),
            final(dom).sync_time_spec() == old(dom).sync_time_spec(),
            final(dom).slot_count_spec() == old(dom).slot_count_spec(),
            a == src.addr_spec(),
            final(dom).slots_spec() == old(dom).slots_spec()
                .update(self.slot_spec() as int, moored_slot(old(dom).slots_spec()[self.slot_spec() as int], *src)),
            final(dom).cells_spec()[a as int] is Live,
            crate::domain::protected_by(final(dom).slots_spec(), a),
    {
        let expected = src.addr();

        match self.try_moor(dom, src, expected) {
            Ok(a) => {
                proof {
                    assert(dom.slots_spec()[self.slot_spec() as int].protected == Some(a));
                }
                a
            },
            Err(_) => vstd::pervasive::unreached(),
        }
    }

    /// Withdraws the published address; the anchor keeps its slot.
    pub fn reset<D: Domain>(&self, dom: &mut D)
        requires
            old(dom).inv(),
            self.valid_in(*old(dom)),
        ensures
            final(dom).inv(),
            final(dom).id_spec() == old(dom).id_spec(),
            final(dom).cells_spec() == old(dom).cells_spec(),
            final(dom).retired_spec() == old(dom).retired_spec(),
            final(dom).retired_count_spec() == old(dom).retired_count_spec(),
            final(dom).sync_time_spec() == old(dom).sync_time_spec(),
            final(dom).slot_count_spec() == old(dom).slot_count_spec(),
            final(dom).slots_spec() == old(dom).slots_spec()
                .update(self.slot_spec() as int, reset_slot_spec(old(dom).slots_spec()[self.slot_spec() as int])),
    {
        dom.reset_slot(self.slot);
        proof {
            assert(dom.slots_spec() =~= old(dom).slots_spec()
                .update(self.slot_spec() as int, reset_slot_spec(old(dom).slots_spec()[self.slot_spec() as int])));
        }
    }

    /// Gives the slot back to the domain — what the destructor does in a
    /// concurrent implementation: withdraw the published address, then
    /// clear the ownership flag.
    pub fn release<D: Domain>(self, dom: &mut D)
        requires
            old(dom).inv(),
            self.valid_in(*old(dom)),
        ensures
            final(dom).inv(),
            final(dom).id_spec() == old(dom).id_spec(),
            final(dom).cells_spec() == old(dom).cells_spec(),
            final(dom).retired_spec() == old(dom).retired_spec(),
            final(dom).retired_count_spec() == old(dom).retired_count_spec(),
            final(dom).sync_time_spec() == old(dom).sync_time_spec(),
            final(dom).slot_count_spec() == old(dom).slot_count_spec(),
            final(dom).slots_spec() == old(dom).slots_spec()
                .update(self.slot_spec() as int, HazPtr { protected: None, active: false }),
    {
        dom.reset_slot(self.slot);
        dom.release_slot(self.slot);
        proof {
            assert(dom.slots_spec() =~= old(dom).slots_spec()
                .update(self.slot_spec() as int, HazPtr { protected: None, active: false }));
        }
    }
}

} // verus!
