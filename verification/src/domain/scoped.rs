//! The scoped domain: a domain bound to an explicit owner.
//!
//! Same contract as the process-wide domain, but retirement triggers no
//! reclamation: retired entries simply accumulate until the owner tears the
//! domain down, at which point every one of them is destroyed
//! unconditionally — exclusive access at destruction time is the proof that
//! no reader can still be observing any of them.

use vstd::prelude::*;

use crate::domain::{Domain, DomainCore, HazCell};
use crate::hazptr::HazPtr;

verus! {

/// What teardown leaves of the cell store: every retired address reclaimed,
/// everything else as it was.
pub open spec fn teardown_cells<T>(cells: Seq<HazCell<T>>, listed: Seq<usize>) -> Seq<HazCell<T>> {
    Seq::new(cells.len(), |a: int| if listed.contains(a as usize) {
        HazCell::Reclaimed
    } else {
        cells[a]
    })
}

/// A domain whose lifetime an owner controls; distinguished from every other
/// domain by the identity its creator chose.
pub struct ScopedDomain<T> {
    core: DomainCore<T>,
}

impl<T> ScopedDomain<T> {
    /// A fresh, empty domain under the identity `id`.
    pub fn new(id: u64) -> (d: Self)
        ensures
            d.inv(),
            d.id_spec() == id,
            d.slots_spec() == Seq::<HazPtr>::empty(),
            d.cells_spec() == Seq::<HazCell<T>>::empty(),
            d.retired_spec() == Seq::<usize>::empty(),
            d.retired_count_spec() == 0,
            d.slot_count_spec() == 0,
    {
        ScopedDomain { core: DomainCore::new(id) }
    }

    /// Scans the pool for a free slot and claims the first one found.
    pub fn try_acquire_existing(&mut self) -> (r: Option<usize>)
        requires
            old(self).inv(),
        ensures
            final(self).inv(),
            final(self).id_spec() == old(self).id_spec(),
            final(self).cells_spec() == old(self).cells_spec(),
            final(self).retired_spec() == old(self).retired_spec(),
            final(self).retired_count_spec() == old(self).retired_count_spec(),
            final(self).slot_count_spec() == old(self).slot_count_spec(),
            r is None ==> final(self).slots_spec() == old(self).slots_spec(),
            // the scan comes back empty-handed only when every slot of the
            // pool was already claimed
            r is None ==> forall|j: int| 0 <= j < old(self).slots_spec().len()
                ==> (#[trigger] old(self).slots_spec()[j]).active,
            r matches Some(i) ==> ({
                &&& (i as int) < old(self).slots_spec().len()
                &&& !old(self).slots_spec()[i as int].active
                &&& final(self).slots_spec() == old(self).slots_spec()
                    .update(i as int, HazPtr { protected: None, active: true })
            }),
    {
        self.core.try_acquire_existing()
    }

    /// Creates a fresh slot, already claimed, at the back of the pool.
    pub fn acquire_new(&mut self) -> (i: usize)
        requires
            old(self).inv(),
            old(self).slot_count_spec() < u64::MAX,
        ensures
            final(self).inv(),
            final(self).id_spec() == old(self).id_spec(),
            final(self).cells_spec() == old(self).cells_spec(),
            final(self).retired_spec() == old(self).retired_spec(),
            final(self).retired_count_spec() == old(self).retired_count_spec(),
            final(self).slot_count_spec() == old(self).slot_count_spec() + 1,
            i as int == old(self).slots_spec().len(),
            final(self).slots_spec() == old(self).slots_spec()
                .push(HazPtr { protected: None, active: true }),
    {
        self.core.acquire_new()
    }

    /// Whether the cell at `addr` is still live.
    pub fn cell_is_live(&self, addr: usize) -> (r: bool)
        requires
            (addr as int) < self.cells_spec().len(),
        ensures
            r == (self.cells_spec()[addr as int] is Live),
    {
        self.core.cell_is_live(addr)
    }

    /// How many cells of this domain have been reclaimed so far — how many
    /// destructors have run.
    pub fn reclaimed_cells(&self) -> (r: usize)
        ensures
            r == crate::domain::reclaimed_in(self.cells_spec()),
    {
        self.core.reclaimed_cells()
    }

    /// How many entries the retired list holds right now.
    pub fn retired_len(&self) -> (n: usize)
        ensures
            n == self.retired_spec().len(),
    {
        self.core.retired.len()
    }

    /// Destroys every retired entry unconditionally and dissolves the slot
    /// pool, as destruction of the domain does: the exclusive borrow is the
    /// proof that no anchor still reads through any of its slots.
    pub fn teardown(&mut self)
        requires
            old(self).inv(),
        ensures
            final(self).inv(),
            final(self).id_spec() == old(self).id_spec(),
            final(self).cells_spec() == teardown_cells(old(self).cells_spec(), old(self).retired_spec()),
            final(self).retired_spec() == Seq::<usize>::empty(),
            final(self).retired_count_spec() == 0,
            final(self).slots_spec() == Seq::<HazPtr>::empty(),
            final(self).slot_count_spec() == 0,
    {
        let stolen = self.core.retired.take_all();
        let n = stolen.len();
        let cl = self.core.cells.len();
        let ghost pre_cells = self.core.cells@;
        let mut i: usize = 0;
        while i < n
            invariant
                n == stolen@.len(),
                i <= n,
                pre_cells.len() == cl,
                self.core.id == old(self).core.id,
                self.core.slots@ == old(self).core.slots@,
                self.core.slots.count_spec() == old(self).core.slots.count_spec(),
                self.core.retired@ == Seq::<usize>::empty(),
                forall|k: int| 0 <= k < stolen@.len()
                    ==> (#[trigger] stolen@[k]) < pre_cells.len() && pre_cells[stolen@[k] as int] is Live,
                forall|k1: int, k2: int| 0 <= k1 < k2 < stolen@.len()
                    ==> stolen@[k1] != stolen@[k2],
                self.core.cells@ == teardown_cells(pre_cells, stolen@.take(i as int)),
            decreases n - i,
        {
            let a = *vstd::slice::slice_index_get(stolen.as_slice(), i);
            proof {
                assert(self.core.cells@[a as int] == pre_cells[a as int]) by {
                    assert(!stolen@.take(i as int).contains(a)) by {
                        if stolen@.take(i as int).contains(a) {
                            let j = choose|j: int| 0 <= j < i && stolen@.take(i as int)[j] == a;
                            assert(stolen@[j] == a);
                        }
                    }
                }
            }
            self.core.cells[a] = HazCell::Reclaimed;
            proof {
                stolen@.lemma_take_succ_push(i as int);
                assert(self.core.cells@ =~= teardown_cells(pre_cells, stolen@.take(i as int + 1))) by {
                    vstd::seq_lib::lemma_seq_contains_after_push(stolen@.take(i as int), stolen@[i as int], stolen@[i as int]);
                    assert forall|b: int| 0 <= b < pre_cells.len()
                        implies self.core.cells@[b] == teardown_cells(pre_cells, stolen@.take(i as int + 1))[b] by {
                        vstd::seq_lib::lemma_seq_contains_after_push(stolen@.take(i as int), stolen@[i as int], b as usize);
                    }
                }
            }
            i = i + 1;
        }
        proof {
            stolen@.lemma_take_len();
        }
        let _ = self.core.retired.swap_count(0);
        let _ = self.core.slots.take_all();
        let _ = self.core.slots.swap_count(0);
    }
}

impl<T> Domain for ScopedDomain<T> {
    type Value = T;

    closed spec fn id_spec(&self) -> u64 {
        self.core.id
    }

    closed spec fn slots_spec(&self) -> Seq<HazPtr> {
        self.core.slots@
    }

    closed spec fn cells_spec(&self) -> Seq<HazCell<T>> {
        self.core.cells@
    }

    closed spec fn retired_spec(&self) -> Seq<usize> {
        self.core.retired@
    }

    closed spec fn retired_count_spec(&self) -> u64 {
        self.core.retired.count_spec()
    }

    closed spec fn slot_count_spec(&self) -> u64 {
        self.core.slots.count_spec()
    }

    /// A scoped domain has no timed trigger; its sync time never leaves
    /// zero.
    open spec fn sync_time_spec(&self) -> u64 {
        0
    }

    closed spec fn inv(&self) -> bool {
        self.core.inv_core()
    }

    /// A scoped retire is one push: the address joins the list, the counter
    /// rises by one, and no cell, slot or identity is touched — nothing is
    /// reclaimed until teardown. Stated over the public projections, so
    /// every caller may rely on it.
    open spec fn retire_effect(&self, post: Self, addr: usize, now_ns: u64) -> bool {
        &&& post.retired_spec() == self.retired_spec().push(addr)
        &&& post.retired_count_spec() == self.retired_count_spec() + 1
        &&& post.cells_spec() == self.cells_spec()
        &&& post.slots_spec() == self.slots_spec()
        &&& post.slot_count_spec() == self.slot_count_spec()
        &&& post.id_spec() == self.id_spec()
    }

    proof fn inv_facts(&self) {
    }

    fn id(&self) -> (r: u64) {
        self.core.id()
    }

    fn acquire(&mut self) -> (r: Option<usize>) {
        Some(self.core.acquire_slot())
    }

    fn retire(&mut self, addr: usize, now_ns: u64) {
        self.core.push_retired(addr);
        proof {
            vstd::seq_lib::lemma_seq_contains_after_push(old(self).core.retired@, addr, addr);
            assert forall|a: usize| #[trigger] final(self).retired_spec().contains(a)
                implies old(self).retired_spec().contains(a) || a == addr by {
                vstd::seq_lib::lemma_seq_contains_after_push(old(self).core.retired@, addr, a);
            }
            assert forall|a: usize| old(self).retired_spec().contains(a) || a == addr
                implies #[trigger] final(self).retired_spec().contains(a)
                    || final(self).cells_spec()[a as int] is Reclaimed by {
                vstd::seq_lib::lemma_seq_contains_after_push(old(self).core.retired@, addr, a);
            }
        }
    }

    fn alloc_cell(&mut self, value: T) -> (addr: usize) {
        self.core.alloc_cell(value)
    }

    fn protect_slot(&mut self, i: usize, addr: usize) {
        self.core.protect_slot(i, addr)
    }

    fn reset_slot(&mut self, i: usize) {
        self.core.reset_slot(i)
    }

    fn release_slot(&mut self, i: usize) {
        self.core.release_slot(i)
    }

    fn cell_value<'a>(&'a self, addr: usize) -> (r: &'a T) {
        self.core.cell_value(addr)
    }

    fn destroy_cell(&mut self, addr: usize) {
        self.core.destroy_cell(addr)
    }
}

} // verus!
