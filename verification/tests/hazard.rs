//! End-to-end exercises of the hazard-pointer protocol.

use hazbox::anchor::Anchor;
use hazbox::domain::global::{reached_threshold, GlobalDomain};
use hazbox::domain::scoped::ScopedDomain;
use hazbox::domain::Domain;
use hazbox::hazbox::HazBox;
use hazbox::hazptr::HazPtr;
use hazbox::node_list::List;

#[test]
pub fn test_uwu() {
    let s = vec![1usize, 2, 3];
    let s = vec![s];

    {
        let mut dom: GlobalDomain<Vec<Vec<usize>>> = GlobalDomain::new();
        let b = HazBox::new(s, &mut dom);
        b.destroy(&mut dom);
    }
}

#[test]
pub fn test_owo() {
    let s = vec![1usize, 2, 3];
    let s = vec![s];

    let mut d1: ScopedDomain<Vec<Vec<usize>>> = ScopedDomain::new(1);
    {
        let owo = s.clone();
        let b = HazBox::new_in(owo, &mut d1);
        b.destroy(&mut d1);
    }
    d1.teardown();

    {
        let mut d2: ScopedDomain<Vec<Vec<usize>>> = ScopedDomain::new(2);
        let owo = s.clone();
        let b = HazBox::new_in(owo, &mut d2);
        b.destroy(&mut d2);
        d2.teardown();
    }

    {
        let mut d3: ScopedDomain<Vec<Vec<usize>>> = ScopedDomain::new(3);
        let owo = s.clone();
        let b = HazBox::new_in(owo, &mut d3);
        b.destroy(&mut d3);
        d3.teardown();
    }
}

#[test]
fn single_threaded_publish_and_swap() {
    let mut dom: GlobalDomain<i32> = GlobalDomain::new();
    let mut b = HazBox::new(10, &mut dom);
    let a = Anchor::new(&mut dom);

    let r = a.moor(&mut dom, &b);
    assert_eq!(*dom.cell_value(r), 10);
    a.reset(&mut dom);

    let h = b.swap(20, &mut dom);
    assert_eq!(*h.value(&dom), 10);
    h.finish(&mut dom, 0);

    let r2 = a.moor(&mut dom, &b);
    assert_eq!(*dom.cell_value(r2), 20);

    a.release(&mut dom);
    b.destroy(&mut dom);
}

#[test]
fn moor_is_idempotent_and_reset_insensitive() {
    let mut dom: GlobalDomain<i32> = GlobalDomain::new();
    let b = HazBox::new(42, &mut dom);
    let a = Anchor::new(&mut dom);

    let r1 = a.moor(&mut dom, &b);
    let r2 = a.moor(&mut dom, &b);
    assert_eq!(r1, r2);
    assert_eq!(*dom.cell_value(r1), 42);

    a.reset(&mut dom);
    let r3 = a.moor(&mut dom, &b);
    assert_eq!(r3, r1);

    a.release(&mut dom);
    b.destroy(&mut dom);
}

#[test]
fn try_moor_reports_the_fresh_address() {
    let mut dom: GlobalDomain<i32> = GlobalDomain::new();
    let mut b = HazBox::new(1, &mut dom);
    let a = Anchor::new(&mut dom);

    let stale = b.addr();
    let h = b.swap(2, &mut dom);

    match a.try_moor(&mut dom, &b, stale) {
        Ok(_) => panic!("a stale expectation must not verify"),
        Err(e) => {
            assert_eq!(e, b.addr());
            let second = a.try_moor(&mut dom, &b, e);
            assert!(matches!(second, Ok(_)));
        }
    }

    a.reset(&mut dom);
    h.finish(&mut dom, 0);
    a.release(&mut dom);
    b.destroy(&mut dom);
}

#[test]
fn try_acquire_grants_at_most_once() {
    let mut s = HazPtr::new(false);
    assert!(s.try_acquire());
    assert!(!s.try_acquire());
    assert!(!s.try_acquire());
    s.reset();
    s.release();
    assert!(s.try_acquire());
}

#[test]
fn slot_protocol_roundtrip() {
    let mut s = HazPtr::new(true);
    assert!(!s.try_acquire());
    s.protect(7);
    assert_eq!(s.ptr(), Some(7));
    s.reset();
    assert_eq!(s.ptr(), None);
    s.release();
    assert!(s.try_acquire());
}

#[test]
fn threshold_boundary() {
    assert!(reached_threshold(1000, 500));
    assert!(!reached_threshold(999, 1));
    assert!(!reached_threshold(1500, 800));
    assert!(reached_threshold(1600, 800));
    assert!(!reached_threshold(0, 0));
    assert!(reached_threshold(1000, 0));
}

#[test]
fn timed_path_fires_once_per_period() {
    let mut dom: GlobalDomain<u8> = GlobalDomain::new();
    assert!(dom.check_sync_time(1));
    assert!(!dom.check_sync_time(2_000_000_001));
    assert!(dom.check_sync_time(2_000_000_002));
}

#[test]
fn timed_path_reclaims_and_debounces() {
    let mut dom: GlobalDomain<u8> = GlobalDomain::new();
    let mut b = HazBox::new(1, &mut dom);

    let h = b.swap(2, &mut dom);
    h.finish(&mut dom, 10);
    assert_eq!(dom.retired_len(), 0);
    assert!(!dom.cell_is_live(0));

    let h2 = b.swap(3, &mut dom);
    h2.finish(&mut dom, 20);
    assert_eq!(dom.retired_len(), 1);
    assert!(dom.cell_is_live(1));

    b.destroy(&mut dom);
}

#[test]
fn threshold_reclamation() {
    let mut dom: GlobalDomain<u64> = GlobalDomain::new();

    let mut anchors = Vec::new();
    let mut i = 0;
    while i < 10 {
        anchors.push(Anchor::new(&mut dom));
        i += 1;
    }
    for a in anchors {
        a.release(&mut dom);
    }

    let mut b = HazBox::new(0u64, &mut dom);
    let mut v = 1u64;
    while v <= 2001 {
        let h = b.swap(v, &mut dom);
        h.finish(&mut dom, 0);
        v += 1;
    }

    assert!(dom.reclaimed_cells() >= 1000);
    b.destroy(&mut dom);
}

#[test]
fn eager_reclaim_empties_when_unanchored() {
    let mut dom: GlobalDomain<u8> = GlobalDomain::new();
    let mut b = HazBox::new(1, &mut dom);
    let mut v = 2u8;
    while v <= 5 {
        let h = b.swap(v, &mut dom);
        h.finish(&mut dom, 0);
        v += 1;
    }
    assert_eq!(dom.retired_len(), 4);

    let n = dom.eager_reclaim();
    assert_eq!(n, 4);
    assert_eq!(dom.retired_len(), 0);
    assert_eq!(dom.reclaimed_cells(), 4);

    b.destroy(&mut dom);
}

#[test]
fn eager_reclaim_spares_live_anchor() {
    let mut dom: GlobalDomain<i32> = GlobalDomain::new();
    let mut b = HazBox::new(5, &mut dom);
    let a = Anchor::new(&mut dom);

    let h = b.swap(6, &mut dom);
    let r = a.moor(&mut dom, &b);
    h.finish(&mut dom, 0);

    let n = dom.eager_reclaim();
    assert_eq!(n, 1);
    assert!(dom.cell_is_live(r));
    assert_eq!(*dom.cell_value(r), 6);
    assert!(!dom.cell_is_live(0));
    assert_eq!(dom.retired_len(), 0);

    a.release(&mut dom);
    b.destroy(&mut dom);
}

#[test]
fn retired_survivor_outlives_eager_reclaim() {
    // An anchor that already published an address keeps the cell alive even
    // after the address is retired: re-reading through the anchor stays
    // sound, and the cell falls only once the anchor lets go.
    let mut dom: GlobalDomain<i32> = GlobalDomain::new();
    let mut b = HazBox::new(1, &mut dom);
    let a = Anchor::new(&mut dom);

    let r = a.moor(&mut dom, &b);
    let h = b.swap(2, &mut dom);
    h.finish(&mut dom, 0);

    let first = dom.eager_reclaim();
    assert_eq!(first, 0);
    assert_eq!(dom.retired_len(), 1);
    assert_eq!(*dom.cell_value(r), 1);

    a.reset(&mut dom);
    let second = dom.eager_reclaim();
    assert_eq!(second, 1);
    assert!(!dom.cell_is_live(r));

    a.release(&mut dom);
    b.destroy(&mut dom);
}

#[test]
fn reader_survives_many_swaps() {
    let mut dom: GlobalDomain<u64> = GlobalDomain::new();
    let mut b = HazBox::new(0u64, &mut dom);
    let a = Anchor::new(&mut dom);

    let r = a.moor(&mut dom, &b);
    let mut i: u64 = 1;
    while i <= 1000 {
        let h = b.swap(i, &mut dom);
        h.finish(&mut dom, 0);
        assert_eq!(*dom.cell_value(r), 0);
        i += 1;
    }
    assert!(dom.cell_is_live(r));
    assert_eq!(*dom.cell_value(r), 0);

    a.reset(&mut dom);
    dom.eager_reclaim();
    assert!(!dom.cell_is_live(r));
    assert!(dom.cell_is_live(b.addr()));
    assert_eq!(dom.retired_len(), 0);

    a.release(&mut dom);
    b.destroy(&mut dom);
}

#[test]
fn re_moor_moves_protection() {
    let mut dom: GlobalDomain<i32> = GlobalDomain::new();
    let mut b = HazBox::new(1, &mut dom);
    let a = Anchor::new(&mut dom);

    let r1 = a.moor(&mut dom, &b);
    let h = b.swap(2, &mut dom);
    let r2 = a.moor(&mut dom, &b);
    assert_ne!(r1, r2);

    h.finish(&mut dom, 0);
    assert_eq!(dom.eager_reclaim(), 1);
    assert!(!dom.cell_is_live(r1));
    assert!(dom.cell_is_live(r2));

    a.release(&mut dom);
    b.destroy(&mut dom);
}

#[test]
fn set_equals_swap_then_finish() {
    let mut d1: GlobalDomain<i32> = GlobalDomain::new();
    let mut d2: GlobalDomain<i32> = GlobalDomain::new();
    let mut b1 = HazBox::new(1, &mut d1);
    let mut b2 = HazBox::new(1, &mut d2);

    let h = b1.swap(2, &mut d1);
    h.finish(&mut d1, 0);
    b2.set(2, &mut d2, 0);

    assert_eq!(b1.addr(), b2.addr());
    assert_eq!(*d1.cell_value(b1.addr()), *d2.cell_value(b2.addr()));
    assert_eq!(d1.retired_len(), d2.retired_len());
    assert_eq!(d1.reclaimed_cells(), d2.reclaimed_cells());
    assert_eq!(d1.cell_is_live(0), d2.cell_is_live(0));

    b1.destroy(&mut d1);
    b2.destroy(&mut d2);
}

#[test]
fn scoped_domain_moor_and_retire() {
    let mut dom: ScopedDomain<i32> = ScopedDomain::new(9);
    let mut b = HazBox::new_in(3, &mut dom);
    let a = Anchor::new_in(&mut dom);

    let r = a.moor(&mut dom, &b);
    assert_eq!(*dom.cell_value(r), 3);

    let h = b.swap(4, &mut dom);
    h.finish(&mut dom, 12345);
    assert_eq!(dom.retired_len(), 1);
    assert!(dom.cell_is_live(r));

    a.release(&mut dom);
    b.destroy(&mut dom);
    dom.teardown();
    assert_eq!(dom.reclaimed_cells(), 2);
}

#[test]
fn scoped_domain_teardown() {
    let mut dom: ScopedDomain<u32> = ScopedDomain::new(7);

    let mut boxes = Vec::new();
    let mut i = 0u32;
    while i < 50 {
        boxes.push(HazBox::new_in(i, &mut dom));
        i += 1;
    }

    for b in boxes.iter_mut().take(30) {
        let h = b.swap(999, &mut dom);
        h.finish(&mut dom, 0);
    }
    assert_eq!(dom.retired_len(), 30);
    assert_eq!(dom.reclaimed_cells(), 0);

    for b in boxes {
        b.destroy(&mut dom);
    }
    assert_eq!(dom.reclaimed_cells(), 50);

    dom.teardown();
    assert_eq!(dom.reclaimed_cells(), 80);
    assert_eq!(dom.retired_len(), 0);
}

#[test]
fn fallible_constructors_always_succeed() {
    let mut dom: GlobalDomain<i32> = GlobalDomain::new();

    let r = HazBox::try_new_in(7, &mut dom);
    assert!(r.is_ok());
    let b = match r {
        Ok(b) => b,
        Err(_) => unreachable!(),
    };

    let a = Anchor::try_new_in(&mut dom);
    assert!(a.is_some());
    let a = match a {
        Some(a) => a,
        None => unreachable!(),
    };

    assert_eq!(a.domain(), b.domain());

    a.release(&mut dom);
    b.destroy(&mut dom);
}

#[test]
fn list_counts_its_pushes() {
    let mut l: List<u32> = List::new();
    assert_eq!(l.len(), 0);
    assert_eq!(l.count(), 0);

    l.push_front(1);
    l.push_front(2);
    assert_eq!(l.len(), 2);
    assert_eq!(l.count(), 2);
    assert_eq!(*l.get(0), 1);
    assert_eq!(*l.get(1), 2);

    l.push_list_front(vec![3, 4]);
    assert_eq!(l.len(), 4);
    assert_eq!(l.count(), 4);
}

#[test]
fn fences_are_callable() {
    hazbox::light();
    hazbox::heavy();
}
