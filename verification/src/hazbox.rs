//! The hazard-box: an owning pointer whose value can be swapped out and
//! retired.

use vstd::prelude::*;

use crate::domain::global::GlobalDomain;
use crate::domain::{protected_by, Domain, HazCell};
use crate::retire::Retire;

verus! {

/// Allocation failure on hazard-box construction. The cell store of this
/// model never refuses an allocation, so the fallible constructor never
/// returns it; it keeps the error's place in the interface.
#[derive(Clone, Copy, Debug)]
pub struct AllocError;

/// An owning pointer into a domain's cell store. The box's address always
/// names a live cell that nobody has retired: only swapping takes the old
/// address out of the box, and only the handle a swap returns can retire
/// it.
pub struct HazBox {
    addr: usize,
    dom_id: u64,
}

impl HazBox {
    /// The address of the cell currently installed in the box.
    pub closed spec fn addr_spec(&self) -> usize {
        self.addr
    }

    /// The identity of the domain the box allocates in.
    pub closed spec fn domain_spec(&self) -> u64 {
        self.dom_id
    }

    /// The box against its domain: the installed address names a live cell
    /// that is not on the retired list.
    pub open spec fn valid_in<D: Domain>(&self, dom: D) -> bool {
        &&& self.domain_spec() == dom.id_spec()
        &&& (self.addr_spec() as int) < dom.cells_spec().len()
        &&& dom.cells_spec()[self.addr_spec() as int] is Live
        &&& !dom.retired_spec().contains(self.addr_spec())
    }

    /// A box in the process-wide domain.
    pub fn new<T>(obj: T, dom: &mut GlobalDomain<T>) -> (b: Self)
        requires
            old(dom).inv(),
        ensures
            final(dom).inv(),
            b.valid_in(*final(dom)),
            b.addr_spec() as int == old(dom).cells_spec().len(),
            b.domain_spec() == old(dom).id_spec(),
            final(dom).id_spec() == old(dom).id_spec(),
            final(dom).slots_spec() == old(dom).slots_spec(),
            final(dom).slot_count_spec() == old(dom).slot_count_spec(),
            final(dom).retired_spec() == old(dom).retired_spec(),
            final(dom).retired_count_spec() == old(dom).retired_count_spec(),
            final(dom).sync_time_spec() == old(dom).sync_time_spec(),
            final(dom).cells_spec() == old(dom).cells_spec().push(HazCell::Live { value: obj }),
    {
        Self::new_in(obj, dom)
    }

    /// A box in the given domain; reports allocation failure instead of
    /// aborting. The cell store cannot fail, so the result is always `Ok`.
    pub fn try_new_in<D: Domain>(obj: D::Value, dom: &mut D) -> (r: Result<Self, AllocError>)
        requires
            old(dom).inv(),
        ensures
            final(dom).inv(),
            final(dom).id_spec() == old(dom).id_spec(),
            final(dom).slots_spec() == old(dom).slots_spec(),
            final(dom).slot_count_spec() == old(dom).slot_count_spec(),
            final(dom).retired_spec() == old(dom).retired_spec(),
            final(dom).retired_count_spec() == old(dom).retired_count_spec(),
            final(dom).sync_time_spec() == old(dom).sync_time_spec(),
            final(dom).cells_spec() == old(dom).cells_spec().push(HazCell::Live { value: obj }),
            r is Ok,
            r matches Ok(b) ==> ({
                &&& b.valid_in(*final(dom))
                &&& b.addr_spec() as int == old(dom).cells_spec().len()
                &&& b.domain_spec() == old(dom).id_spec()
            }),
    {
        let addr = dom.alloc_cell(obj);
        let id = dom.id();
        let b = HazBox { addr, dom_id: id };
        proof {
            assert(!dom.retired_spec().contains(addr)) by {
                if dom.retired_spec().contains(addr) {
                    old(dom).inv_facts();
                    let k = choose|k: int| 0 <= k < old(dom).retired_spec().len()
                        && old(dom).retired_spec()[k] == addr;
                    assert(old(dom).retired_spec()[k] < old(dom).cells_spec().len());
                }
            }
        }
        Ok(b)
    }

    /// A box in the given domain; the variant that would abort on
    /// allocation failure.
    pub fn new_in<D: Domain>(obj: D::Value, dom: &mut D) -> (b: Self)
        requires
            old(dom).inv(),
        ensures
            final(dom).inv(),
            final(dom).id_spec() == old(dom).id_spec(),
            final(dom).slots_spec() == old(dom).slots_spec(),
            final(dom).slot_count_spec() == old(dom).slot_count_spec(),
            final(dom).retired_spec() == old(dom).retired_spec(),
            final(dom).retired_count_spec() == old(dom).retired_count_spec(),
            final(dom).sync_time_spec() == old(dom).sync_time_spec(),
            final(dom).cells_spec() == old(dom).cells_spec().push(HazCell::Live { value: obj }),
            b.valid_in(*final(dom)),
            b.addr_spec() as int == old(dom).cells_spec().len(),
            b.domain_spec() == old(dom).id_spec(),
    {
        match Self::try_new_in(obj, dom) {
            Ok(b) => b,
            Err(_) => vstd::pervasive::unreached(),
        }
    }

    /// The identity of the box's domain.
    pub fn domain(&self) -> (d: u64)
        ensures
            d == self.domain_spec(),
    {
        self.dom_id
    }

    /// The installed address, as the reader's first load of the box's
    /// pointer reads it.
    pub fn addr(&self) -> (a: usize)
        ensures
            a == self.addr_spec(),
    {
        self.addr
    }

    /// Installs a fresh cell holding `with` and returns the handle that now
    /// owns the old address. The old cell stays live: only the handle can
    /// retire it.
    pub fn swap<D: Domain>(&mut self, with: D::Value, dom: &mut D) -> (h: Retire)
        requires
            old(dom).inv(),
            old(self).valid_in(*old(dom)),
        ensures
            final(dom).inv(),
            final(dom).id_spec() == old(dom).id_spec(),
            final(dom).slots_spec() == old(dom).slots_spec(),
            final(dom).slot_count_spec() == old(dom).slot_count_spec(),
            final(dom).retired_spec() == old(dom).retired_spec(),
            final(dom).retired_count_spec() == old(dom).retired_count_spec(),
            final(dom).sync_time_spec() == old(dom).sync_time_spec(),
            final(dom).cells_spec() == old(dom).cells_spec().push(HazCell::Live { value: with }),
            final(self).domain_spec() == old(self).domain_spec(),
            final(self).addr_spec() as int == old(dom).cells_spec().len(),
            final(self).valid_in(*final(dom)),
            h.addr_spec() == old(self).addr_spec(),
            h.domain_spec() == old(self).domain_spec(),
            h.valid_in(*final(dom)),
            h.addr_spec() != final(self).addr_spec(),
    {
        let new_addr = dom.alloc_cell(with);
        let old_addr = self.addr;
        self.addr = new_addr;
        proof {
            assert(!dom.retired_spec().contains(new_addr)) by {
                if dom.retired_spec().contains(new_addr) {
                    old(dom).inv_facts();
                    let k = choose|k: int| 0 <= k < old(dom).retired_spec().len()
                        && old(dom).retired_spec()[k] == new_addr;
                    assert(old(dom).retired_spec()[k] < old(dom).cells_spec().len());
                }
            }
        }
        Retire::new_in(old_addr, self.dom_id)
    }

    /// Swap and retire in one motion: fire-and-forget replacement. By
    /// construction this is `swap` followed by handing the handle straight
    /// back to the domain, and the contract says exactly that: the returned
    /// ghost value names the state between the two halves — what `swap`
    /// left — and the end state follows from it by the domain's own
    /// `retire_effect`, so a call here and a swap-then-retire leave equal
    /// states behind.
    pub fn set<D: Domain>(&mut self, to: D::Value, dom: &mut D, now_ns: u64) -> (mid: Ghost<D>)
        requires
            old(dom).inv(),
            old(self).valid_in(*old(dom)),
            old(dom).retired_count_spec() < u64::MAX,
            now_ns <= u64::MAX - 2_000_000_000,
        ensures
            // the state after the swap half, before the retirement
            mid@.inv(),
            mid@.id_spec() == old(dom).id_spec(),
            mid@.slots_spec() == old(dom).slots_spec(),
            mid@.slot_count_spec() == old(dom).slot_count_spec(),
            mid@.retired_spec() == old(dom).retired_spec(),
            mid@.retired_count_spec() == old(dom).retired_count_spec(),
            mid@.sync_time_spec() == old(dom).sync_time_spec(),
            mid@.cells_spec() == old(dom).cells_spec().push(HazCell::Live { value: to }),
            // the retirement half: exactly what handing the handle back does
            mid@.retire_effect(*final(dom), old(self).addr_spec(), now_ns),
            final(dom).inv(),
            final(dom).id_spec() == old(dom).id_spec(),
            final(dom).slots_spec() == old(dom).slots_spec(),
            final(dom).slot_count_spec() == old(dom).slot_count_spec(),
            final(dom).cells_spec().len() == old(dom).cells_spec().len() + 1,
            final(self).domain_spec() == old(self).domain_spec(),
            final(self).addr_spec() as int == old(dom).cells_spec().len(),
            final(self).valid_in(*final(dom)),
            final(dom).cells_spec()[final(self).addr_spec() as int]
                == (HazCell::Live { value: to }),
            // a published live cell survives the retirement this triggers
            forall|a: int| 0 <= a < old(dom).cells_spec().len()
                && old(dom).cells_spec()[a] is Live
                && protected_by(old(dom).slots_spec(), a as usize)
                ==> #[trigger] final(dom).cells_spec()[a] == old(dom).cells_spec()[a],
            // a cell neither retired nor replaced here is untouched
            forall|a: int| 0 <= a < old(dom).cells_spec().len()
                && !old(dom).retired_spec().contains(a as usize)
                && a != old(self).addr_spec() as int
                ==> #[trigger] final(dom).cells_spec()[a] == old(dom).cells_spec()[a],
            // the old value is pending or destroyed, never still installed
            final(dom).retired_spec().contains(old(self).addr_spec())
                || final(dom).cells_spec()[old(self).addr_spec() as int] is Reclaimed,
    {
        let ghost pre_dom = *old(dom);
        let h = self.swap(to, dom);
        let ghost mid_dom = *dom;
        h.finish(dom, now_ns);
        proof {
            assert forall|a: int| 0 <= a < pre_dom.cells_spec().len()
                && pre_dom.cells_spec()[a] is Live
                && protected_by(pre_dom.slots_spec(), a as usize)
                implies #[trigger] dom.cells_spec()[a] == pre_dom.cells_spec()[a] by {
                assert(mid_dom.cells_spec()[a] == pre_dom.cells_spec()[a]);
                assert(mid_dom.slots_spec() == pre_dom.slots_spec());
                if dom.cells_spec()[a] != mid_dom.cells_spec()[a] {
                    assert(!protected_by(mid_dom.slots_spec(), a as usize));
                }
            }
            assert forall|a: int| 0 <= a < pre_dom.cells_spec().len()
                && !pre_dom.retired_spec().contains(a as usize)
                && a != old(self).addr_spec() as int
                implies #[trigger] dom.cells_spec()[a] == pre_dom.cells_spec()[a] by {
                assert(mid_dom.cells_spec()[a] == pre_dom.cells_spec()[a]);
                if dom.cells_spec()[a] != mid_dom.cells_spec()[a] {
                    assert(mid_dom.retired_spec().contains(a as usize)
                        || a == old(self).addr_spec() as int);
                }
            }
        }
        Ghost(mid_dom)
    }

    /// Destroys the box: the still-installed value's destructor runs at
    /// once, bypassing retirement. Exclusive destruction of the box is the
    /// proof that no reader can still be observing the installed address,
    /// so no slot may be publishing it.
    pub fn destroy<D: Domain>(self, dom: &mut D)
        requires
            old(dom).inv(),
            self.valid_in(*old(dom)),
            !protected_by(old(dom).slots_spec(), self.addr_spec()),
        ensures
            final(dom).inv(),
            final(dom).id_spec() == old(dom).id_spec(),
            final(dom).slots_spec() == old(dom).slots_spec(),
            final(dom).slot_count_spec() == old(dom).slot_count_spec(),
            final(dom).retired_spec() == old(dom).retired_spec(),
            final(dom).retired_count_spec() == old(dom).retired_count_spec(),
            final(dom).sync_time_spec() == old(dom).sync_time_spec(),
            final(dom).cells_spec() == old(dom).cells_spec()
                .update(self.addr_spec() as int, HazCell::Reclaimed),
    {
        dom.destroy_cell(self.addr)
    }
}

} // verus!
