//! The process-wide domain flavour: threshold- and time-triggered bulk
//! reclamation.
//!
//! Retirement pushes onto the retired list and then consults two triggers.
//! The timed trigger fires when the caller's clock reading has passed the
//! stored sync time, advances that time by a whole period, and runs an
//! unconditional reclamation pass. The threshold trigger fires when the
//! retired counter has reached both its absolute floor and twice the slot
//! counter, zeroes the counter, and runs a pass. A pass steals the whole
//! retired list, snapshots what every slot publishes, destroys every stolen
//! entry whose address is unprotected, and returns the survivors to the
//! list with their count.

use vstd::prelude::*;

use crate::domain::{protected_by, Domain, DomainCore, HazCell};
use crate::hazptr::HazPtr;

verus! {

broadcast use vstd::seq_lib::lemma_seq_contains_after_push;

/// The debounce period of the timed trigger, in nanoseconds.
pub const SYNC_TIME_PERIOD: u64 = 2_000_000_000;

/// The absolute floor of the retired counter below which the threshold
/// trigger never fires.
pub const RETIRED_COUNT_THRESHOLD: u64 = 1000;

/// The threshold also asks the retired counter to reach this multiple of
/// the slot counter.
pub const HP_COUNT_MULTIPLIER: u64 = 2;

/// The threshold condition on the two counters.
pub open spec fn reached_threshold_spec(retired_num: u64, hazptr_num: u64) -> bool {
    retired_num >= RETIRED_COUNT_THRESHOLD
        && retired_num >= HP_COUNT_MULTIPLIER * hazptr_num
}

/// Whether the counters have reached the reclamation threshold: the retired
/// counter at or above its absolute floor, and at or above twice the slot
/// counter.
pub fn reached_threshold(retired_num: u64, hazptr_num: u64) -> (r: bool)
    ensures
        r == reached_threshold_spec(retired_num, hazptr_num),
{
    retired_num >= RETIRED_COUNT_THRESHOLD
        && (retired_num as u128) >= (HP_COUNT_MULTIPLIER as u128) * (hazptr_num as u128)
}

/// One step of the timed trigger: `fired` exactly when the reading passed
/// the stored sync time, and a fire advances the sync time a whole period
/// past the reading.
pub open spec fn sync_transition(sync: u64, now_ns: u64, post_sync: u64, fired: bool) -> bool {
    &&& fired == (now_ns > sync)
    &&& post_sync == if fired {
        (now_ns + SYNC_TIME_PERIOD) as u64
    } else {
        sync
    }
}

/// The timed trigger fires at most once per period: once a reading `t1` has
/// fired, no reading up to `t1 + SYNC_TIME_PERIOD` fires again.
pub proof fn lemma_timed_debounce(
    sync0: u64,
    sync1: u64,
    sync2: u64,
    t1: u64,
    t2: u64,
    fired1: bool,
    fired2: bool,
)
    requires
        t1 <= u64::MAX - SYNC_TIME_PERIOD,
        sync_transition(sync0, t1, sync1, fired1),
        sync_transition(sync1, t2, sync2, fired2),
        fired1,
        t2 <= t1 + SYNC_TIME_PERIOD,
    ensures
        !fired2,
{
}

/// What a reclamation pass leaves of the cell store: every listed address
/// that no slot publishes is reclaimed, everything else keeps its cell.
pub open spec fn pass_cells<T>(
    cells: Seq<HazCell<T>>,
    listed: Seq<usize>,
    slots: Seq<HazPtr>,
) -> Seq<HazCell<T>> {
    Seq::new(cells.len(), |a: int| if listed.contains(a as usize) && !protected_by(slots, a as usize) {
        HazCell::Reclaimed
    } else {
        cells[a]
    })
}

/// A live value whose address any anchor has published is never destroyed:
/// whatever list a reclamation pass walks, it leaves every protected cell
/// exactly as it found it. A box retired after a reader already published
/// its old address therefore cannot be read after free.
pub proof fn lemma_protected_survives_pass<T>(
    cells: Seq<HazCell<T>>,
    listed: Seq<usize>,
    slots: Seq<HazPtr>,
    a: usize,
)
    requires
        (a as int) < cells.len(),
        protected_by(slots, a),
    ensures
        pass_cells(cells, listed, slots)[a as int] == cells[a as int],
{
}

/// The process-wide domain. A concurrent implementation keeps one such
/// value in static storage for the whole program; here the caller owns it
/// and passes it to every operation.
pub struct GlobalDomain<T> {
    core: DomainCore<T>,
    sync_time: u64,
    nbulk_reclaims: u64,
}

impl<T> GlobalDomain<T> {
    /// How many bulk reclamations are in progress — with the domain behind
    /// `&mut`, at most one ever is; the counter is diagnostic.
    pub closed spec fn nbulk_spec(&self) -> u64 {
        self.nbulk_reclaims
    }

    /// A reclamation pass over `listed`, started with the retired counter
    /// at `count_base`: exactly what it leaves of the whole domain.
    pub open spec fn pass_post(pre: Self, post: Self, listed: Seq<usize>, count_base: u64) -> bool {
        &&& post.cells_spec() == pass_cells(pre.cells_spec(), listed, pre.slots_spec())
        &&& (forall|a: usize| #[trigger] post.retired_spec().contains(a)
            <==> listed.contains(a) && protected_by(pre.slots_spec(), a))
        &&& post.retired_count_spec() == count_base + post.retired_spec().len()
        &&& post.slots_spec() == pre.slots_spec()
        &&& post.slot_count_spec() == pre.slot_count_spec()
        &&& post.id_spec() == pre.id_spec()
        &&& post.nbulk_spec() == pre.nbulk_spec()
    }

    /// The fresh process-wide domain; its identity is fixed at zero, there
    /// being one such domain to a process.
    pub fn new() -> (d: Self)
        ensures
            d.inv(),
            d.id_spec() == 0,
            d.slots_spec() == Seq::<HazPtr>::empty(),
            d.cells_spec() == Seq::<HazCell<T>>::empty(),
            d.retired_spec() == Seq::<usize>::empty(),
            d.retired_count_spec() == 0,
            d.slot_count_spec() == 0,
            d.sync_time_spec() == 0,
            d.nbulk_spec() == 0,
    {
        GlobalDomain { core: DomainCore::new(0), sync_time: 0, nbulk_reclaims: 0 }
    }

    /// Scans the pool for a free slot and claims the first one found.
    pub fn try_acquire_existing(&mut self) -> (r: Option<usize>)
        requires
            old(self).inv(),
        ensures
            final(self).inv(),
            final(self).id_spec() == old(self).id_spec(),
            final(self).cells_spec() == old(self).cells_spec(),
            final(self).retired_spec() == old(self).retired_spec(),
            final(self).retired_count_spec() == old(self).retired_count_spec(),
            final(self).slot_count_spec() == old(self).slot_count_spec(),
            final(self).sync_time_spec() == old(self).sync_time_spec(),
            r is None ==> final(self).slots_spec() == old(self).slots_spec(),
            // the scan comes back empty-handed only when every slot of the
            // pool was already claimed
            r is None ==> forall|j: int| 0 <= j < old(self).slots_spec().len()
                ==> (#[trigger] old(self).slots_spec()[j]).active,
            r matches Some(i) ==> ({
                &&& (i as int) < old(self).slots_spec().len()
                &&& !old(self).slots_spec()[i as int].active
                &&& final(self).slots_spec() == old(self).slots_spec()
                    .update(i as int, HazPtr { protected: None, active: true })
            }),
    {
        self.core.try_acquire_existing()
    }

    /// Creates a fresh slot, already claimed, at the back of the pool.
    pub fn acquire_new(&mut self) -> (i: usize)
        requires
            old(self).inv(),
            old(self).slot_count_spec() < u64::MAX,
        ensures
            final(self).inv(),
            final(self).id_spec() == old(self).id_spec(),
            final(self).cells_spec() == old(self).cells_spec(),
            final(self).retired_spec() == old(self).retired_spec(),
            final(self).retired_count_spec() == old(self).retired_count_spec(),
            final(self).slot_count_spec() == old(self).slot_count_spec() + 1,
            final(self).sync_time_spec() == old(self).sync_time_spec(),
            i as int == old(self).slots_spec().len(),
            final(self).slots_spec() == old(self).slots_spec()
                .push(HazPtr { protected: None, active: true }),
    {
        self.core.acquire_new()
    }

    /// Walks a stolen retired list against the snapshot of the published
    /// addresses: destroys every unprotected entry, keeps every protected
    /// one, and returns the survivors to the retired list with their count.
    /// Returns how many entries were destroyed.
    fn bulk_lookup_and_reclaim(&mut self, stolen: Vec<usize>) -> (reclaimed: usize)
        requires
            old(self).core.inv_core(),
            old(self).retired_spec() == Seq::<usize>::empty(),
            forall|k: int| 0 <= k < stolen@.len()
                ==> (#[trigger] stolen@[k]) < old(self).cells_spec().len()
                    && old(self).cells_spec()[stolen@[k] as int] is Live,
            forall|k1: int, k2: int| 0 <= k1 < k2 < stolen@.len()
                ==> stolen@[k1] != stolen@[k2],
            old(self).retired_count_spec() + stolen@.len() <= u64::MAX,
        ensures
            final(self).core.inv_core(),
            final(self).id_spec() == old(self).id_spec(),
            final(self).sync_time_spec() == old(self).sync_time_spec(),
            final(self).nbulk_spec() == old(self).nbulk_spec(),
            final(self).slots_spec() == old(self).slots_spec(),
            final(self).slot_count_spec() == old(self).slot_count_spec(),
            final(self).cells_spec() == pass_cells(old(self).cells_spec(), stolen@, old(self).slots_spec()),
            forall|a: usize| #[trigger] final(self).retired_spec().contains(a)
                <==> stolen@.contains(a) && protected_by(old(self).slots_spec(), a),
            final(self).retired_count_spec() == old(self).retired_count_spec()
                + final(self).retired_spec().len(),
            reclaimed + final(self).retired_spec().len() == stolen@.len(),
    {
        let n = stolen.len();
        let cl = self.core.cells.len();
        let ghost pre_cells = self.core.cells@;
        let ghost slots0 = self.core.slots@;
        let mut survivors: Vec<usize> = Vec::new();
        let mut reclaimed_now: usize = 0;
        let mut i: usize = 0;
        while i < n
            invariant
                n == stolen@.len(),
                i <= n,
                pre_cells.len() == cl,
                pre_cells == old(self).core.cells@,
                slots0 == old(self).core.slots@,
                self.core.slots@ == slots0,
                self.core.slots.count_spec() == old(self).core.slots.count_spec(),
                self.core.id == old(self).core.id,
                self.sync_time == old(self).sync_time,
                self.nbulk_reclaims == old(self).nbulk_reclaims,
                self.core.retired@ == Seq::<usize>::empty(),
                self.core.retired.count_spec() == old(self).core.retired.count_spec(),
                forall|k: int| 0 <= k < stolen@.len()
                    ==> (#[trigger] stolen@[k]) < pre_cells.len()
                        && pre_cells[stolen@[k] as int] is Live,
                forall|k1: int, k2: int| 0 <= k1 < k2 < stolen@.len()
                    ==> stolen@[k1] != stolen@[k2],
                self.core.cells@ == pass_cells(pre_cells, stolen@.take(i as int), slots0),
                forall|a: usize| #[trigger] survivors@.contains(a)
                    <==> stolen@.take(i as int).contains(a) && protected_by(slots0, a),
                forall|k1: int, k2: int| 0 <= k1 < k2 < survivors@.len()
                    ==> survivors@[k1] != survivors@[k2],
                survivors@.len() + reclaimed_now == i,
            decreases n - i,
        {
            let a = stolen[i];
            proof {
                assert(!stolen@.take(i as int).contains(a)) by {
                    if stolen@.take(i as int).contains(a) {
                        let j = choose|j: int| 0 <= j < i && stolen@.take(i as int)[j] == a;
                        assert(stolen@[j] == a);
                    }
                }
                assert(self.core.cells@[a as int] == pre_cells[a as int]);
                stolen@.lemma_take_succ_push(i as int);
            }
            if self.core.is_protected(a) {
                let ghost old_surv = survivors@;
                survivors.push(a);
                proof {
                    assert(!old_surv.contains(a));
                    assert forall|k: int| 0 <= k < old_surv.len() implies old_surv[k] != a by {
                        old_surv.lemma_index_contains(k);
                    }
                    assert(self.core.cells@ =~= pass_cells(pre_cells, stolen@.take(i as int + 1), slots0)) by {
                        assert forall|b: int| 0 <= b < pre_cells.len()
                            implies self.core.cells@[b]
                                == pass_cells(pre_cells, stolen@.take(i as int + 1), slots0)[b] by {
                            assert(stolen@.take(i as int + 1).contains(b as usize)
                                <==> stolen@.take(i as int).contains(b as usize) || b as usize == a);
                        }
                    }
                    assert forall|x: usize| #[trigger] survivors@.contains(x)
                        implies stolen@.take(i as int + 1).contains(x) && protected_by(slots0, x) by {
                    }
                    assert forall|x: usize| stolen@.take(i as int + 1).contains(x) && protected_by(slots0, x)
                        implies #[trigger] survivors@.contains(x) by {
                    }
                }
            } else {
                self.core.cells[a] = HazCell::Reclaimed;
                reclaimed_now = reclaimed_now + 1;
                proof {
                    assert(self.core.cells@ =~= pass_cells(pre_cells, stolen@.take(i as int + 1), slots0)) by {
                        assert forall|b: int| 0 <= b < pre_cells.len()
                            implies self.core.cells@[b]
                                == pass_cells(pre_cells, stolen@.take(i as int + 1), slots0)[b] by {
                            assert(stolen@.take(i as int + 1).contains(b as usize)
                                <==> stolen@.take(i as int).contains(b as usize) || b as usize == a);
                        }
                    }
                    assert forall|x: usize| #[trigger] survivors@.contains(x)
                        implies stolen@.take(i as int + 1).contains(x) && protected_by(slots0, x) by {
                    }
                    assert forall|x: usize| stolen@.take(i as int + 1).contains(x) && protected_by(slots0, x)
                        implies #[trigger] survivors@.contains(x) by {
                    }
                }
            }
            i = i + 1;
        }
        proof {
            stolen@.lemma_take_len();
            assert(stolen@.take(n as int) == stolen@);
        }
        let m = survivors.len();
        proof {
            assert forall|k: int| 0 <= k < survivors@.len()
                implies (#[trigger] survivors@[k]) < self.core.cells@.len()
                    && self.core.cells@[survivors@[k] as int] is Live by {
                survivors@.lemma_index_contains(k);
                let x = survivors@[k];
                assert(stolen@.contains(x) && protected_by(slots0, x));
                let j = choose|j: int| 0 <= j < stolen@.len() && stolen@[j] == x;
                assert(pre_cells[x as int] is Live);
                assert(self.core.cells@[x as int] == pass_cells(pre_cells, stolen@, slots0)[x as int]);
            }
        }
        if m > 0 {
            self.core.retired.push_list_front(survivors);
            proof {
                assert(self.core.retired@ =~= Seq::<usize>::empty() + survivors@);
            }
        } else {
            proof {
                assert(survivors@ =~= Seq::<usize>::empty());
            }
        }
        reclaimed_now
    }

    /// One full reclamation: steal the retired list, order the steal before
    /// the slot scan with the heavy fence, destroy what nothing publishes,
    /// and return the survivors. Returns the number destroyed. With the
    /// domain behind `&mut` nothing refills the list mid-call, so a single
    /// pass is the transitive closure that the concurrent algorithm loops
    /// for.
    pub fn bulk_reclaim(&mut self) -> (reclaimed: usize)
        requires
            old(self).inv(),
            old(self).retired_count_spec() + old(self).retired_spec().len() <= u64::MAX,
        ensures
            final(self).inv(),
            final(self).id_spec() == old(self).id_spec(),
            final(self).sync_time_spec() == old(self).sync_time_spec(),
            final(self).nbulk_spec() == old(self).nbulk_spec(),
            Self::pass_post(*old(self), *final(self), old(self).retired_spec(), old(self).retired_count_spec()),
            reclaimed + final(self).retired_spec().len() == old(self).retired_spec().len(),
    {
        self.nbulk_reclaims = self.nbulk_reclaims + 1;
        let stolen = self.core.retired.take_all();
        crate::heavy();
        proof {
            old(self).inv_facts();
        }
        let reclaimed = self.bulk_lookup_and_reclaim(stolen);
        self.nbulk_reclaims = self.nbulk_reclaims - 1;
        reclaimed
    }

    /// The timed trigger's clock check: fires when the reading passed the
    /// stored sync time, and then advances that time a whole period past
    /// the reading, so that the path fires at most once per period.
    pub fn check_sync_time(&mut self, now_ns: u64) -> (fired: bool)
        requires
            now_ns <= u64::MAX - SYNC_TIME_PERIOD,
        ensures
            sync_transition(old(self).sync_time_spec(), now_ns, final(self).sync_time_spec(), fired),
            !fired ==> *final(self) == *old(self),
            final(self).id_spec() == old(self).id_spec(),
            final(self).slots_spec() == old(self).slots_spec(),
            final(self).slot_count_spec() == old(self).slot_count_spec(),
            final(self).cells_spec() == old(self).cells_spec(),
            final(self).retired_spec() == old(self).retired_spec(),
            final(self).retired_count_spec() == old(self).retired_count_spec(),
            final(self).inv() == old(self).inv(),
            final(self).nbulk_spec() == old(self).nbulk_spec(),
    {
        let sync_time = self.sync_time;
        if now_ns > sync_time {
            self.sync_time = now_ns + SYNC_TIME_PERIOD;
            true
        } else {
            false
        }
    }

    /// The unconditional reclamation behind a timed fire: zero the retired
    /// counter, then run a full pass.
    pub fn relaxed_cleanup(&mut self)
        requires
            old(self).inv(),
        ensures
            final(self).inv(),
            final(self).sync_time_spec() == old(self).sync_time_spec(),
            final(self).nbulk_spec() == old(self).nbulk_spec(),
            Self::pass_post(*old(self), *final(self), old(self).retired_spec(), 0),
    {
        let _ = self.core.retired.swap_count(0);
        let n = self.core.retired.len();
        proof {
            assert(self.retired_count_spec() == 0);
            assert(self.retired_spec().len() == n);
            assert(n <= u64::MAX) by {
                assert((n as u64) as int == n as int);
            }
        }
        let _ = self.bulk_reclaim();
    }

    /// The timed path: fire the clock check, and on a fire run the
    /// unconditional reclamation. Returns whether it fired.
    pub fn try_timed_cleanup(&mut self, now_ns: u64) -> (fired: bool)
        requires
            old(self).inv(),
            now_ns <= u64::MAX - SYNC_TIME_PERIOD,
        ensures
            final(self).inv(),
            fired == (now_ns > old(self).sync_time_spec()),
            !fired ==> *final(self) == *old(self),
            fired ==> ({
                &&& final(self).sync_time_spec() == now_ns + SYNC_TIME_PERIOD
                &&& final(self).nbulk_spec() == old(self).nbulk_spec()
                &&& Self::pass_post(*old(self), *final(self), old(self).retired_spec(), 0)
            }),
    {
        if !self.check_sync_time(now_ns) {
            return false;
        }
        self.relaxed_cleanup();
        true
    }

    /// The threshold path: re-read both counters, zero the retired counter,
    /// hold the threshold against the zeroed-out value, and only then run
    /// the pass. A concurrent loser of this race leaves its counter
    /// donation to the winner; behind `&mut` the re-check cannot disagree
    /// with the first.
    pub fn try_bulk_reclaim(&mut self)
        requires
            old(self).inv(),
        ensures
            final(self).inv(),
            final(self).sync_time_spec() == old(self).sync_time_spec(),
            final(self).nbulk_spec() == old(self).nbulk_spec(),
            !reached_threshold_spec(old(self).retired_count_spec(), old(self).slot_count_spec())
                ==> *final(self) == *old(self),
            reached_threshold_spec(old(self).retired_count_spec(), old(self).slot_count_spec())
                ==> Self::pass_post(*old(self), *final(self), old(self).retired_spec(), 0),
    {
        let retired_num = self.core.retired.count();
        let hazptr_num = self.core.slots.count();

        if !reached_threshold(retired_num, hazptr_num) {
            return;
        }

        let swapped = self.core.retired.swap_count(0);

        if !reached_threshold(swapped, hazptr_num) {
            return;
        }

        let n = self.core.retired.len();
        proof {
            assert(self.retired_count_spec() == 0);
            assert(self.retired_spec().len() == n);
            assert(n <= u64::MAX) by {
                assert((n as u64) as int == n as int);
            }
        }
        let _ = self.bulk_reclaim();
    }

    /// The trigger consultation after every retirement: the timed path
    /// first, else the threshold path.
    pub fn check_cleanup_and_reclaim(&mut self, now_ns: u64)
        requires
            old(self).inv(),
            now_ns <= u64::MAX - SYNC_TIME_PERIOD,
        ensures
            final(self).inv(),
            final(self).nbulk_spec() == old(self).nbulk_spec(),
            now_ns > old(self).sync_time_spec() ==> ({
                &&& final(self).sync_time_spec() == now_ns + SYNC_TIME_PERIOD
                &&& Self::pass_post(*old(self), *final(self), old(self).retired_spec(), 0)
            }),
            now_ns <= old(self).sync_time_spec()
                && reached_threshold_spec(old(self).retired_count_spec(), old(self).slot_count_spec())
                ==> ({
                    &&& final(self).sync_time_spec() == old(self).sync_time_spec()
                    &&& Self::pass_post(*old(self), *final(self), old(self).retired_spec(), 0)
                }),
            now_ns <= old(self).sync_time_spec()
                && !reached_threshold_spec(old(self).retired_count_spec(), old(self).slot_count_spec())
                ==> *final(self) == *old(self),
    {
        if self.try_timed_cleanup(now_ns) {
            return;
        }

        let retired_num = self.core.retired.count();
        let hazptr_num = self.core.slots.count();
        if reached_threshold(retired_num, hazptr_num) {
            self.try_bulk_reclaim();
        }
    }

    /// Forces one transitive bulk reclamation and returns how many entries
    /// it destroyed. When no slot publishes anything — no anchor is mooring
    /// — the pass spares nothing: the retired list is empty afterwards.
    pub fn eager_reclaim(&mut self) -> (reclaimed: usize)
        requires
            old(self).inv(),
            old(self).retired_count_spec() + old(self).retired_spec().len() <= u64::MAX,
        ensures
            final(self).inv(),
            final(self).id_spec() == old(self).id_spec(),
            final(self).sync_time_spec() == old(self).sync_time_spec(),
            Self::pass_post(*old(self), *final(self), old(self).retired_spec(), old(self).retired_count_spec()),
            reclaimed + final(self).retired_spec().len() == old(self).retired_spec().len(),
            (forall|i: int| 0 <= i < old(self).slots_spec().len()
                ==> (#[trigger] old(self).slots_spec()[i]).protected is None)
                ==> final(self).retired_spec().len() == 0,
    {
        let r = self.bulk_reclaim();
        proof {
            if forall|i: int| 0 <= i < old(self).slots_spec().len()
                ==> (#[trigger] old(self).slots_spec()[i]).protected is None {
                if self.retired_spec().len() > 0 {
                    let a = self.retired_spec()[0];
                    self.retired_spec().lemma_index_contains(0);
                    assert(protected_by(old(self).slots_spec(), a));
                    let i = choose|i: int| 0 <= i < old(self).slots_spec().len()
                        && old(self).slots_spec()[i].protected == Some(a);
                    assert(false);
                }
            }
        }
        r
    }

    /// Whether the cell at `addr` is still live.
    pub fn cell_is_live(&self, addr: usize) -> (r: bool)
        requires
            (addr as int) < self.cells_spec().len(),
        ensures
            r == (self.cells_spec()[addr as int] is Live),
    {
        self.core.cell_is_live(addr)
    }

    /// How many cells of this domain have been reclaimed so far — how many
    /// destructors have run.
    pub fn reclaimed_cells(&self) -> (r: usize)
        ensures
            r == crate::domain::reclaimed_in(self.cells_spec()),
    {
        self.core.reclaimed_cells()
    }

    /// How many entries the retired list holds right now.
    pub fn retired_len(&self) -> (n: usize)
        ensures
            n == self.retired_spec().len(),
    {
        self.core.retired.len()
    }
}

impl<T> Domain for GlobalDomain<T> {
    type Value = T;

    closed spec fn id_spec(&self) -> u64 {
        self.core.id
    }

    closed spec fn slots_spec(&self) -> Seq<HazPtr> {
        self.core.slots@
    }

    closed spec fn cells_spec(&self) -> Seq<HazCell<T>> {
        self.core.cells@
    }

    closed spec fn retired_spec(&self) -> Seq<usize> {
        self.core.retired@
    }

    closed spec fn retired_count_spec(&self) -> u64 {
        self.core.retired.count_spec()
    }

    closed spec fn slot_count_spec(&self) -> u64 {
        self.core.slots.count_spec()
    }

    closed spec fn sync_time_spec(&self) -> u64 {
        self.sync_time
    }

    closed spec fn inv(&self) -> bool {
        &&& self.core.inv_core()
        &&& self.nbulk_reclaims < u64::MAX
    }

    /// A retirement pushes the address, then fires the timed trigger, else
    /// the threshold trigger, else leaves the list standing — and says so to
    /// every caller, in terms of the domain's public projections.
    open spec fn retire_effect(&self, post: Self, addr: usize, now_ns: u64) -> bool {
        let mid_retired = self.retired_spec().push(addr);
        let mid_count = (self.retired_count_spec() + 1) as u64;
        if now_ns > self.sync_time_spec() {
            &&& post.sync_time_spec() == now_ns + SYNC_TIME_PERIOD
            &&& GlobalDomain::<T>::pass_post(*self, post, mid_retired, 0)
        } else if reached_threshold_spec(mid_count, self.slot_count_spec()) {
            &&& post.sync_time_spec() == self.sync_time_spec()
            &&& GlobalDomain::<T>::pass_post(*self, post, mid_retired, 0)
        } else {
            &&& post.sync_time_spec() == self.sync_time_spec()
            &&& post.nbulk_spec() == self.nbulk_spec()
            &&& post.retired_spec() == mid_retired
            &&& post.retired_count_spec() == mid_count
            &&& post.cells_spec() == self.cells_spec()
            &&& post.slots_spec() == self.slots_spec()
            &&& post.slot_count_spec() == self.slot_count_spec()
            &&& post.id_spec() == self.id_spec()
        }
    }

    proof fn inv_facts(&self) {
    }

    fn id(&self) -> (r: u64) {
        self.core.id()
    }

    fn acquire(&mut self) -> (r: Option<usize>) {
        Some(self.core.acquire_slot())
    }

    fn retire(&mut self, addr: usize, now_ns: u64) {
        let cl = self.core.cells.len();
        self.core.push_retired(addr);
        let ghost mid = *self;
        self.check_cleanup_and_reclaim(now_ns);
        proof {
            let ghost mid_retired = old(self).core.retired@.push(addr);
            assert(mid.core.retired@ == mid_retired);
            old(self).inv_facts();
            assert forall|a: usize| #[trigger] self.retired_spec().contains(a)
                implies old(self).retired_spec().contains(a) || a == addr by {
                assert(mid_retired.contains(a) || old(self).retired_spec().contains(a) || a == addr);
            }
            assert forall|a: usize| old(self).retired_spec().contains(a) || a == addr
                implies #[trigger] self.retired_spec().contains(a)
                    || self.cells_spec()[a as int] is Reclaimed by {
                assert(mid_retired.contains(a));
                if !self.retired_spec().contains(a) {
                    // a pass ran and found a unprotected: its cell is gone
                    assert(self.cells_spec()[a as int] is Reclaimed);
                }
            }
            assert forall|a: int| 0 <= a < old(self).cells_spec().len()
                && #[trigger] self.cells_spec()[a] != old(self).cells_spec()[a]
                implies ({
                    &&& old(self).cells_spec()[a] is Live
                    &&& self.cells_spec()[a] is Reclaimed
                    &&& !protected_by(old(self).slots_spec(), a as usize)
                    &&& old(self).retired_spec().contains(a as usize) || a == addr as int
                }) by {
                let fired = now_ns > old(self).sync_time_spec();
                let hit = reached_threshold_spec(
                    mid.retired_count_spec(),
                    mid.slot_count_spec(),
                );
                if fired || hit {
                    assert(Self::pass_post(mid, *self, mid_retired, 0));
                    assert(self.cells_spec()[a]
                        == pass_cells(mid.cells_spec(), mid_retired, mid.slots_spec())[a]);
                    assert(mid_retired.contains(a as usize)
                        && !protected_by(mid.slots_spec(), a as usize));
                    if a != addr as int {
                        assert(a < cl && (a as usize) as int == a);
                        assert(a as usize != addr);
                        assert(old(self).retired_spec().contains(a as usize));
                    }
                } else {
                    assert(self.cells_spec()[a] == mid.cells_spec()[a]);
                    assert(false);
                }
            }
        }
    }

    fn alloc_cell(&mut self, value: T) -> (addr: usize) {
        self.core.alloc_cell(value)
    }

    fn protect_slot(&mut self, i: usize, addr: usize) {
        self.core.protect_slot(i, addr)
    }

    fn reset_slot(&mut self, i: usize) {
        self.core.reset_slot(i)
    }

    fn release_slot(&mut self, i: usize) {
        self.core.release_slot(i)
    }

    fn cell_value<'a>(&'a self, addr: usize) -> (r: &'a T) {
        self.core.cell_value(addr)
    }

    fn destroy_cell(&mut self, addr: usize) {
        self.core.destroy_cell(addr)
    }
}

} // verus!
