//! Domains: owners of the slot pool, the cell store and the retired list.
//!
//! A domain plays the role of the heap: every value guarded by a hazard-box
//! lives in a cell of its domain, and an address is the cell's index. A cell
//! is `Live` until its destructor runs — by direct destruction of a box, or
//! by reclamation of a retired entry — and `Reclaimed` from then on, so the
//! store records that each destructor runs at most once and that no address
//! is ever reused.

use vstd::prelude::*;

use crate::hazptr::HazPtr;
use crate::node_list::List;

pub mod global;
pub mod scoped;

verus! {

/// One cell of a domain's store: a value that is still live, or the trace of
/// a value whose destructor has run.
pub enum HazCell<T> {
    /// The value is allocated and may be read through its address.
    Live { value: T },
    /// The value's destructor has run; the address must not be read again.
    Reclaimed,
}

/// The number of cells of the store whose destructor has run.
pub open spec fn reclaimed_in<T>(cells: Seq<HazCell<T>>) -> int
    decreases cells.len(),
{
    if cells.len() == 0 {
        0
    } else {
        reclaimed_in(cells.drop_last()) + if cells.last() is Reclaimed {
            1int
        } else {
            0int
        }
    }
}

/// A destructor runs exactly once: destroying a live cell raises the
/// count of reclaimed cells by exactly one, and a reclaimed cell — being
/// no longer `Live` — can never be destroyed again.
pub proof fn lemma_destroy_counts_once<T>(cells: Seq<HazCell<T>>, a: usize)
    requires
        (a as int) < cells.len(),
        cells[a as int] is Live,
    ensures
        reclaimed_in(cells.update(a as int, HazCell::Reclaimed)) == reclaimed_in(cells) + 1,
    decreases cells.len(),
{
    let updated = cells.update(a as int, HazCell::Reclaimed);
    if a as int == cells.len() - 1 {
        assert(updated.drop_last() =~= cells.drop_last());
        assert(updated.last() is Reclaimed);
        assert(cells.last() is Live);
    } else {
        assert(updated.drop_last() =~= cells.drop_last().update(a as int, HazCell::Reclaimed));
        assert(updated.last() == cells.last());
        lemma_destroy_counts_once(cells.drop_last(), a);
    }
}

/// Whether some slot of the pool currently publishes `addr`. Reclamation
/// spares every address for which this holds; the scan reads every slot,
/// active or not, exactly as the concurrent algorithm's snapshot does.
pub open spec fn protected_by(slots: Seq<HazPtr>, addr: usize) -> bool {
    exists|i: int| 0 <= i < slots.len() && (#[trigger] slots[i]).protected == Some(addr)
}

/// The capability set of a domain: allocate cells, hand out hazard slots,
/// accept retirements, and destroy cells that nothing can still observe.
///
/// The two flavours differ only in what `retire` triggers; each states its
/// exact effect through `retire_effect`. Whatever the flavour, `retire`
/// guarantees that a cell changes only from live to reclaimed, only if it
/// was retired and unprotected: an address that any slot publishes is never
/// reclaimed out from under its reader.
pub trait Domain: Sized {
    /// The type of the values kept in this domain's cells; every value
    /// protected behind a hazard-box is a [`Hazard`](crate::Hazard).
    type Value: crate::Hazard;

    /// The domain's identity; anchors and boxes may only meet a domain whose
    /// identity they were created with.
    spec fn id_spec(&self) -> u64;

    /// The slot pool.
    spec fn slots_spec(&self) -> Seq<HazPtr>;

    /// The cell store.
    spec fn cells_spec(&self) -> Seq<HazCell<Self::Value>>;

    /// The retired list: addresses awaiting deferred destruction.
    spec fn retired_spec(&self) -> Seq<usize>;

    /// The retired-list counter — a hint that trails the list.
    spec fn retired_count_spec(&self) -> u64;

    /// The slot-pool counter.
    spec fn slot_count_spec(&self) -> u64;

    /// The timed trigger's stored sync time. A flavour without a timed
    /// trigger keeps it constantly at zero; only `retire` may move it.
    spec fn sync_time_spec(&self) -> u64;

    /// The domain's internal consistency: retired entries are distinct live
    /// addresses, and an inactive slot publishes nothing.
    spec fn inv(&self) -> bool;

    /// The exact effect of this flavour's `retire` on the whole domain.
    spec fn retire_effect(&self, post: Self, addr: usize, now_ns: u64) -> bool;

    /// What `inv` yields to callers that only see the domain abstractly.
    proof fn inv_facts(&self)
        requires
            self.inv(),
        ensures
            forall|k: int| 0 <= k < self.retired_spec().len()
                ==> (#[trigger] self.retired_spec()[k]) < self.cells_spec().len()
                    && self.cells_spec()[self.retired_spec()[k] as int] is Live,
            forall|k1: int, k2: int| 0 <= k1 < k2 < self.retired_spec().len()
                ==> self.retired_spec()[k1] != self.retired_spec()[k2],
            forall|i: int| 0 <= i < self.slots_spec().len()
                && !(#[trigger] self.slots_spec()[i]).active
                ==> self.slots_spec()[i].protected is None,
    ;

    /// The domain's identity as a runtime value, for handles to remember.
    fn id(&self) -> (r: u64)
        ensures
            r == self.id_spec(),
    ;

    /// Hands out a slot whose `active` flag this call set: a previously free
    /// slot of the pool, or a freshly created one. Both flavours create slots
    /// on demand, so the call always succeeds.
    fn acquire(&mut self) -> (r: Option<usize>)
        requires
            old(self).inv(),
            old(self).slot_count_spec() < u64::MAX,
        ensures
            final(self).inv(),
            final(self).id_spec() == old(self).id_spec(),
            final(self).cells_spec() == old(self).cells_spec(),
            final(self).retired_spec() == old(self).retired_spec(),
            final(self).retired_count_spec() == old(self).retired_count_spec(),
            final(self).sync_time_spec() == old(self).sync_time_spec(),
            r is Some,
            r matches Some(i) ==> ({
                &&& (i as int) < final(self).slots_spec().len()
                &&& final(self).slots_spec()[i as int] == (HazPtr { protected: None, active: true })
                &&& ((i as int) < old(self).slots_spec().len()
                    ==> !old(self).slots_spec()[i as int].active)
                &&& old(self).slots_spec().len() <= final(self).slots_spec().len()
                    <= old(self).slots_spec().len() + 1
                &&& ((i as int) >= old(self).slots_spec().len() ==> i as int == old(self).slots_spec().len())
                &&& forall|j: int| 0 <= j < old(self).slots_spec().len() && j != i as int
                    ==> final(self).slots_spec()[j] == old(self).slots_spec()[j]
                &&& final(self).slot_count_spec() == old(self).slot_count_spec()
                    + (final(self).slots_spec().len() - old(self).slots_spec().len())
            }),
    ;

    /// Accepts `addr` for deferred destruction, and runs whatever
    /// reclamation this flavour triggers. `now_ns` is the caller's reading
    /// of the wall clock in nanoseconds; the timed trigger is a decision on
    /// that reading alone.
    fn retire(&mut self, addr: usize, now_ns: u64)
        requires
            old(self).inv(),
            (addr as int) < old(self).cells_spec().len(),
            old(self).cells_spec()[addr as int] is Live,
            !old(self).retired_spec().contains(addr),
            old(self).retired_count_spec() < u64::MAX,
            now_ns <= u64::MAX - 2_000_000_000,
        ensures
            final(self).inv(),
            final(self).id_spec() == old(self).id_spec(),
            final(self).slots_spec() == old(self).slots_spec(),
            final(self).slot_count_spec() == old(self).slot_count_spec(),
            final(self).cells_spec().len() == old(self).cells_spec().len(),
            // a cell changes only from live to reclaimed, only when it was
            // retired and no slot published its address
            forall|a: int| 0 <= a < old(self).cells_spec().len()
                && #[trigger] final(self).cells_spec()[a] != old(self).cells_spec()[a]
                ==> ({
                    &&& old(self).cells_spec()[a] is Live
                    &&& final(self).cells_spec()[a] is Reclaimed
                    &&& !protected_by(old(self).slots_spec(), a as usize)
                    &&& old(self).retired_spec().contains(a as usize) || a == addr as int
                }),
            // the retired list afterwards holds only entries from before,
            // plus the one just handed in
            forall|a: usize| #[trigger] final(self).retired_spec().contains(a)
                ==> old(self).retired_spec().contains(a) || a == addr,
            // nothing handed in is lost: it stays retired or was reclaimed
            forall|a: usize| old(self).retired_spec().contains(a) || a == addr
                ==> #[trigger] final(self).retired_spec().contains(a)
                    || final(self).cells_spec()[a as int] is Reclaimed,
            old(self).retire_effect(*final(self), addr, now_ns),
    ;

    /// Allocates a fresh cell holding `value` and returns its address.
    /// Addresses are never reused, so the address is new to everyone.
    fn alloc_cell(&mut self, value: Self::Value) -> (addr: usize)
        requires
            old(self).inv(),
        ensures
            final(self).inv(),
            final(self).id_spec() == old(self).id_spec(),
            final(self).slots_spec() == old(self).slots_spec(),
            final(self).slot_count_spec() == old(self).slot_count_spec(),
            final(self).retired_spec() == old(self).retired_spec(),
            final(self).retired_count_spec() == old(self).retired_count_spec(),
            final(self).sync_time_spec() == old(self).sync_time_spec(),
            addr as int == old(self).cells_spec().len(),
            final(self).cells_spec() == old(self).cells_spec().push(HazCell::Live { value }),
    ;

    /// Publishes `addr` in slot `i`, which must be owned (active).
    fn protect_slot(&mut self, i: usize, addr: usize)
        requires
            old(self).inv(),
            (i as int) < old(self).slots_spec().len(),
            old(self).slots_spec()[i as int].active,
        ensures
            final(self).inv(),
            final(self).id_spec() == old(self).id_spec(),
            final(self).cells_spec() == old(self).cells_spec(),
            final(self).retired_spec() == old(self).retired_spec(),
            final(self).retired_count_spec() == old(self).retired_count_spec(),
            final(self).sync_time_spec() == old(self).sync_time_spec(),
            final(self).slot_count_spec() == old(self).slot_count_spec(),
            final(self).slots_spec() == old(self).slots_spec()
                .update(i as int, HazPtr { protected: Some(addr), active: true }),
    ;

    /// Withdraws what slot `i` publishes; the slot stays owned.
    fn reset_slot(&mut self, i: usize)
        requires
            old(self).inv(),
            (i as int) < old(self).slots_spec().len(),
            old(self).slots_spec()[i as int].active,
        ensures
            final(self).inv(),
            final(self).id_spec() == old(self).id_spec(),
            final(self).cells_spec() == old(self).cells_spec(),
            final(self).retired_spec() == old(self).retired_spec(),
            final(self).retired_count_spec() == old(self).retired_count_spec(),
            final(self).sync_time_spec() == old(self).sync_time_spec(),
            final(self).slot_count_spec() == old(self).slot_count_spec(),
            final(self).slots_spec() == old(self).slots_spec()
                .update(i as int, HazPtr { protected: None, active: true }),
    ;

    /// Returns slot `i` to the pool. The slot must publish nothing, so that
    /// no stale protection outlives its owner.
    fn release_slot(&mut self, i: usize)
        requires
            old(self).inv(),
            (i as int) < old(self).slots_spec().len(),
            old(self).slots_spec()[i as int].active,
            old(self).slots_spec()[i as int].protected is None,
        ensures
            final(self).inv(),
            final(self).id_spec() == old(self).id_spec(),
            final(self).cells_spec() == old(self).cells_spec(),
            final(self).retired_spec() == old(self).retired_spec(),
            final(self).retired_count_spec() == old(self).retired_count_spec(),
            final(self).sync_time_spec() == old(self).sync_time_spec(),
            final(self).slot_count_spec() == old(self).slot_count_spec(),
            final(self).slots_spec() == old(self).slots_spec()
                .update(i as int, HazPtr { protected: None, active: false }),
    ;

    /// A borrow of the live value at `addr`.
    fn cell_value<'a>(&'a self, addr: usize) -> (r: &'a Self::Value)
        requires
            self.inv(),
            (addr as int) < self.cells_spec().len(),
            self.cells_spec()[addr as int] is Live,
        ensures
            self.cells_spec()[addr as int] == (HazCell::Live { value: *r }),
    ;

    /// Runs the destructor of the live cell at `addr` at once, bypassing
    /// retirement. Only the destructor of a hazard-box uses this: exclusive
    /// destruction of the box proves that no reader can still be observing
    /// the address — so no slot may be publishing it.
    fn destroy_cell(&mut self, addr: usize)
        requires
            old(self).inv(),
            (addr as int) < old(self).cells_spec().len(),
            old(self).cells_spec()[addr as int] is Live,
            !old(self).retired_spec().contains(addr),
            !protected_by(old(self).slots_spec(), addr),
        ensures
            final(self).inv(),
            final(self).id_spec() == old(self).id_spec(),
            final(self).slots_spec() == old(self).slots_spec(),
            final(self).slot_count_spec() == old(self).slot_count_spec(),
            final(self).retired_spec() == old(self).retired_spec(),
            final(self).retired_count_spec() == old(self).retired_count_spec(),
            final(self).sync_time_spec() == old(self).sync_time_spec(),
            final(self).cells_spec() == old(self).cells_spec()
                .update(addr as int, HazCell::Reclaimed),
    ;
}

/// The state common to both domain flavours: the slot pool, the cell store
/// and the retired list, under one identity.
pub(crate) struct DomainCore<T> {
    pub(crate) slots: List<HazPtr>,
    pub(crate) cells: Vec<HazCell<T>>,
    pub(crate) retired: List<usize>,
    pub(crate) id: u64,
}

impl<T> DomainCore<T> {
    /// Retired entries are distinct live addresses, and an inactive slot
    /// publishes nothing.
    pub(crate) open spec fn inv_core(&self) -> bool {
        &&& forall|k: int| 0 <= k < self.retired@.len()
            ==> (#[trigger] self.retired@[k]) < self.cells@.len()
                && self.cells@[self.retired@[k] as int] is Live
        &&& forall|k1: int, k2: int| 0 <= k1 < k2 < self.retired@.len()
            ==> self.retired@[k1] != self.retired@[k2]
        &&& forall|i: int| 0 <= i < self.slots@.len() && !(#[trigger] self.slots@[i]).active
            ==> self.slots@[i].protected is None
    }

    pub(crate) fn new(id: u64) -> (d: Self)
        ensures
            d.inv_core(),
            d.id == id,
            d.slots@ == Seq::<HazPtr>::empty(),
            d.cells@ == Seq::<HazCell<T>>::empty(),
            d.retired@ == Seq::<usize>::empty(),
            d.slots.count_spec() == 0,
            d.retired.count_spec() == 0,
    {
        DomainCore { slots: List::new(), cells: Vec::new(), retired: List::new(), id }
    }

    pub(crate) fn id(&self) -> (r: u64)
        ensures
            r == self.id,
    {
        self.id
    }

    /// Scans the pool for a free slot and claims the first one found.
    pub(crate) fn try_acquire_existing(&mut self) -> (r: Option<usize>)
        requires
            old(self).inv_core(),
        ensures
            final(self).inv_core(),
            final(self).id == old(self).id,
            final(self).cells@ == old(self).cells@,
            final(self).retired@ == old(self).retired@,
            final(self).retired.count_spec() == old(self).retired.count_spec(),
            final(self).slots.count_spec() == old(self).slots.count_spec(),
            r is None ==> final(self).slots@ == old(self).slots@,
            // the scan comes back empty-handed only when every slot of the
            // pool was already claimed
            r is None ==> forall|j: int| 0 <= j < old(self).slots@.len()
                ==> (#[trigger] old(self).slots@[j]).active,
            r matches Some(i) ==> ({
                &&& (i as int) < old(self).slots@.len()
                &&& !old(self).slots@[i as int].active
                &&& final(self).slots@ == old(self).slots@
                    .update(i as int, HazPtr { protected: None, active: true })
            }),
    {
        let n = self.slots.len();
        let mut i: usize = 0;
        while i < n
            invariant
                n == old(self).slots@.len(),
                i <= n,
                *self == *old(self),
                old(self).inv_core(),
                forall|j: int| 0 <= j < i ==> (#[trigger] old(self).slots@[j]).active,
            decreases n - i,
        {
            let mut s = *self.slots.get(i);
            if s.try_acquire() {
                proof {
                    assert(old(self).slots@[i as int].protected is None);
                }
                self.slots.set(i, s);
                return Some(i);
            }
            i = i + 1;
        }
        None
    }

    /// Creates a fresh slot, already claimed, at the back of the pool.
    pub(crate) fn acquire_new(&mut self) -> (i: usize)
        requires
            old(self).inv_core(),
            old(self).slots.count_spec() < u64::MAX,
        ensures
            final(self).inv_core(),
            final(self).id == old(self).id,
            final(self).cells@ == old(self).cells@,
            final(self).retired@ == old(self).retired@,
            final(self).retired.count_spec() == old(self).retired.count_spec(),
            final(self).slots.count_spec() == old(self).slots.count_spec() + 1,
            i as int == old(self).slots@.len(),
            final(self).slots@ == old(self).slots@.push(HazPtr { protected: None, active: true }),
    {
        let i = self.slots.len();
        self.slots.push_front(HazPtr::new(true));
        i
    }

    /// Claims a slot: a free one if the scan finds any, a fresh one else.
    pub(crate) fn acquire_slot(&mut self) -> (i: usize)
        requires
            old(self).inv_core(),
            old(self).slots.count_spec() < u64::MAX,
        ensures
            final(self).inv_core(),
            final(self).id == old(self).id,
            final(self).cells@ == old(self).cells@,
            final(self).retired@ == old(self).retired@,
            final(self).retired.count_spec() == old(self).retired.count_spec(),
            (i as int) < final(self).slots@.len(),
            final(self).slots@[i as int] == (HazPtr { protected: None, active: true }),
            (i as int) < old(self).slots@.len() ==> !old(self).slots@[i as int].active,
            old(self).slots@.len() <= final(self).slots@.len() <= old(self).slots@.len() + 1,
            (i as int) >= old(self).slots@.len() ==> i as int == old(self).slots@.len(),
            forall|j: int| 0 <= j < old(self).slots@.len() && j != i as int
                ==> final(self).slots@[j] == old(self).slots@[j],
            final(self).slots.count_spec() == old(self).slots.count_spec()
                + (final(self).slots@.len() - old(self).slots@.len()),
    {
        match self.try_acquire_existing() {
            Some(i) => i,
            None => self.acquire_new(),
        }
    }

    /// Pushes `addr` onto the retired list; no trigger runs here.
    pub(crate) fn push_retired(&mut self, addr: usize)
        requires
            old(self).inv_core(),
            (addr as int) < old(self).cells@.len(),
            old(self).cells@[addr as int] is Live,
            !old(self).retired@.contains(addr),
            old(self).retired.count_spec() < u64::MAX,
        ensures
            final(self).inv_core(),
            final(self).id == old(self).id,
            final(self).cells@ == old(self).cells@,
            final(self).slots@ == old(self).slots@,
            final(self).slots.count_spec() == old(self).slots.count_spec(),
            final(self).retired@ == old(self).retired@.push(addr),
            final(self).retired.count_spec() == old(self).retired.count_spec() + 1,
    {
        self.retired.push_front(addr);
    }

    pub(crate) fn alloc_cell(&mut self, value: T) -> (addr: usize)
        requires
            old(self).inv_core(),
        ensures
            final(self).inv_core(),
            final(self).id == old(self).id,
            final(self).slots@ == old(self).slots@,
            final(self).slots.count_spec() == old(self).slots.count_spec(),
            final(self).retired@ == old(self).retired@,
            final(self).retired.count_spec() == old(self).retired.count_spec(),
            addr as int == old(self).cells@.len(),
            final(self).cells@ == old(self).cells@.push(HazCell::Live { value }),
    {
        let addr = self.cells.len();
        self.cells.push(HazCell::Live { value });
        addr
    }

    pub(crate) fn protect_slot(&mut self, i: usize, addr: usize)
        requires
            old(self).inv_core(),
            (i as int) < old(self).slots@.len(),
            old(self).slots@[i as int].active,
        ensures
            final(self).inv_core(),
            final(self).id == old(self).id,
            final(self).cells@ == old(self).cells@,
            final(self).retired@ == old(self).retired@,
            final(self).retired.count_spec() == old(self).retired.count_spec(),
            final(self).slots.count_spec() == old(self).slots.count_spec(),
            final(self).slots@ == old(self).slots@
                .update(i as int, HazPtr { protected: Some(addr), active: true }),
    {
        let mut s = *self.slots.get(i);
        s.protect(addr);
        self.slots.set(i, s);
    }

    pub(crate) fn reset_slot(&mut self, i: usize)
        requires
            old(self).inv_core(),
            (i as int) < old(self).slots@.len(),
            old(self).slots@[i as int].active,
        ensures
            final(self).inv_core(),
            final(self).id == old(self).id,
            final(self).cells@ == old(self).cells@,
            final(self).retired@ == old(self).retired@,
            final(self).retired.count_spec() == old(self).retired.count_spec(),
            final(self).slots.count_spec() == old(self).slots.count_spec(),
            final(self).slots@ == old(self).slots@
                .update(i as int, HazPtr { protected: None, active: true }),
    {
        let mut s = *self.slots.get(i);
        s.reset();
        self.slots.set(i, s);
    }

    pub(crate) fn release_slot(&mut self, i: usize)
        requires
            old(self).inv_core(),
            (i as int) < old(self).slots@.len(),
            old(self).slots@[i as int].active,
            old(self).slots@[i as int].protected is None,
        ensures
            final(self).inv_core(),
            final(self).id == old(self).id,
            final(self).cells@ == old(self).cells@,
            final(self).retired@ == old(self).retired@,
            final(self).retired.count_spec() == old(self).retired.count_spec(),
            final(self).slots.count_spec() == old(self).slots.count_spec(),
            final(self).slots@ == old(self).slots@
                .update(i as int, HazPtr { protected: None, active: false }),
    {
        let mut s = *self.slots.get(i);
        s.release();
        self.slots.set(i, s);
    }

    pub(crate) fn cell_value<'a>(&'a self, addr: usize) -> (r: &'a T)
        requires
            self.inv_core(),
            (addr as int) < self.cells@.len(),
            self.cells@[addr as int] is Live,
        ensures
            self.cells@[addr as int] == (HazCell::Live { value: *r }),
    {
        match &self.cells[addr] {
            HazCell::Live { value } => value,
            HazCell::Reclaimed => vstd::pervasive::unreached(),
        }
    }

    pub(crate) fn destroy_cell(&mut self, addr: usize)
        requires
            old(self).inv_core(),
            (addr as int) < old(self).cells@.len(),
            old(self).cells@[addr as int] is Live,
            !old(self).retired@.contains(addr),
        ensures
            final(self).inv_core(),
            final(self).id == old(self).id,
            final(self).slots@ == old(self).slots@,
            final(self).slots.count_spec() == old(self).slots.count_spec(),
            final(self).retired@ == old(self).retired@,
            final(self).retired.count_spec() == old(self).retired.count_spec(),
            final(self).cells@ == old(self).cells@.update(addr as int, HazCell::Reclaimed),
    {
        self.cells[addr] = HazCell::Reclaimed;
    }

    /// Whether the cell at `addr` is still live.
    pub(crate) fn cell_is_live(&self, addr: usize) -> (r: bool)
        requires
            (addr as int) < self.cells@.len(),
        ensures
            r == (self.cells@[addr as int] is Live),
    {
        match &self.cells[addr] {
            HazCell::Live { value: _ } => true,
            HazCell::Reclaimed => false,
        }
    }

    /// How many cells of the store have been reclaimed so far.
    pub(crate) fn reclaimed_cells(&self) -> (r: usize)
        ensures
            r == reclaimed_in(self.cells@),
    {
        let n = self.cells.len();
        let mut r: usize = 0;
        let mut i: usize = 0;
        while i < n
            invariant
                n == self.cells@.len(),
                i <= n,
                r == reclaimed_in(self.cells@.take(i as int)),
                r <= i,
            decreases n - i,
        {
            proof {
                self.cells@.lemma_take_succ_push(i as int);
                assert(self.cells@.take(i as int + 1).drop_last() =~= self.cells@.take(i as int));
                assert(self.cells@.take(i as int + 1).last() == self.cells@[i as int]);
            }
            match &self.cells[i] {
                HazCell::Reclaimed => {
                    r = r + 1;
                }
                HazCell::Live { value: _ } => {}
            }
            i = i + 1;
        }
        proof {
            self.cells@.lemma_take_len();
        }
        r
    }

    /// Whether any slot currently publishes `addr`: one read of every slot,
    /// as reclamation's snapshot takes it.
    pub(crate) fn is_protected(&self, addr: usize) -> (r: bool)
        ensures
            r == protected_by(self.slots@, addr),
    {
        let n = self.slots.len();
        let mut i: usize = 0;
        while i < n
            invariant
                n == self.slots@.len(),
                i <= n,
                forall|j: int| 0 <= j < i ==> (#[trigger] self.slots@[j]).protected != Some(addr),
            decreases n - i,
        {
            let s = self.slots.get(i);
            match s.ptr() {
                Some(p) => {
                    if p == addr {
                        return true;
                    }
                }
                None => {}
            }
            i = i + 1;
        }
        false
    }
}

} // verus!

