//! The retirement handle: ephemeral owner of a swapped-out address.

use vstd::prelude::*;

use crate::domain::{Domain, HazCell};

verus! {

/// Temporarily owns the address a swap took out of a hazard-box. The writer
/// may still read the old value through it; handing the handle back to the
/// domain retires the address for deferred destruction.
pub struct Retire {
    addr: usize,
    dom_id: u64,
}

impl Retire {
    /// The address this handle owns.
    pub closed spec fn addr_spec(&self) -> usize {
        self.addr
    }

    /// The identity of the domain the address came from.
    pub closed spec fn domain_spec(&self) -> u64 {
        self.dom_id
    }

    /// The handle against its domain: the address names a live cell that
    /// nobody has retired yet.
    pub open spec fn valid_in<D: Domain>(&self, dom: D) -> bool {
        &&& self.domain_spec() == dom.id_spec()
        &&& (self.addr_spec() as int) < dom.cells_spec().len()
        &&& dom.cells_spec()[self.addr_spec() as int] is Live
        &&& !dom.retired_spec().contains(self.addr_spec())
    }

    pub(crate) fn new_in(addr: usize, dom_id: u64) -> (h: Self)
        ensures
            h.addr_spec() == addr,
            h.domain_spec() == dom_id,
    {
        Retire { addr, dom_id }
    }

    /// The owned address, as a plain value.
    pub fn addr(&self) -> (a: usize)
        ensures
            a == self.addr_spec(),
    {
        self.addr
    }

    /// A borrow of the swapped-out value: the writer may inspect what it
    /// replaced before retiring it.
    pub fn value<'a, D: Domain>(&self, dom: &'a D) -> (r: &'a D::Value)
        requires
            dom.inv(),
            self.valid_in(*dom),
        ensures
            dom.cells_spec()[self.addr_spec() as int] == (HazCell::Live { value: *r }),
    {
        dom.cell_value(self.addr)
    }

    /// Hands the address to the domain for deferred destruction — what the
    /// destructor of the handle does in a concurrent implementation. The
    /// domain runs its triggers; whatever they reclaim, an address that any
    /// slot publishes stays live.
    pub fn finish<D: Domain>(self, dom: &mut D, now_ns: u64)
        requires
            old(dom).inv(),
            self.valid_in(*old(dom)),
            old(dom).retired_count_spec() < u64::MAX,
            now_ns <= u64::MAX - 2_000_000_000,
        ensures
            final(dom).inv(),
            final(dom).id_spec() == old(dom).id_spec(),
            final(dom).slots_spec() == old(dom).slots_spec(),
            final(dom).slot_count_spec() == old(dom).slot_count_spec(),
            final(dom).cells_spec().len() == old(dom).cells_spec().len(),
            forall|a: int| 0 <= a < old(dom).cells_spec().len()
                && #[trigger] final(dom).cells_spec()[a] != old(dom).cells_spec()[a]
                ==> ({
                    &&& old(dom).cells_spec()[a] is Live
                    &&& final(dom).cells_spec()[a] is Reclaimed
                    &&& !crate::domain::protected_by(old(dom).slots_spec(), a as usize)
                    &&& old(dom).retired_spec().contains(a as usize)
                        || a == self.addr_spec() as int
                }),
            forall|a: usize| #[trigger] final(dom).retired_spec().contains(a)
                ==> old(dom).retired_spec().contains(a) || a == self.addr_spec(),
            forall|a: usize| old(dom).retired_spec().contains(a) || a == self.addr_spec()
                ==> #[trigger] final(dom).retired_spec().contains(a)
                    || final(dom).cells_spec()[a as int] is Reclaimed,
            old(dom).retire_effect(*final(dom), self.addr_spec(), now_ns),
    {
        dom.retire(self.addr, now_ns)
    }
}

} // verus!
