use libafl::allocator::{AllocStep, Allocator, AsanError, AsanOptions, ReleaseOutcome, poison, unpoison};

const PAGE: u64 = 4096;

fn options() -> AsanOptions {
    AsanOptions {
        max_allocation: 1 << 30,
        max_total_allocation: 1 << 32,
        max_allocation_panics: false,
        enable_backtraces: false,
    }
}

fn take(a: &mut Allocator, size: u64) -> u64 {
    match a.allocate(size, 8) {
        AllocStep::Ready { ptr, .. } => ptr,
        AllocStep::NeedsMapping { .. } => match a.complete_mapping(true) {
            AllocStep::Ready { ptr, .. } => ptr,
            other => panic!("mapping not completed: {:?}", other),
        },
        other => panic!("allocation failed: {:?}", other),
    }
}

#[test]
fn shadow_mapping_groups_eight_bytes() {
    let a = Allocator::new(options(), PAGE, 44, true);
    let base: u64 = 0x7000_0000_0000;
    let s = a.map_to_shadow(base);
    assert_eq!(a.map_to_shadow(base + 1), s);
    assert_eq!(a.map_to_shadow(base + 7), s);
    assert_eq!(a.map_to_shadow(base + 8), s + 1);
    assert_eq!(s, (1u64 << 44) + ((base >> 3) & ((1u64 << 45) - 1)));
}

#[test]
fn alloc_release_cycle_poisons_and_detects_double_free() {
    let mut a = Allocator::new(options(), PAGE, 44, true);
    let p = take(&mut a, 100);
    assert_eq!(p, a.base_mapping_addr + PAGE);
    assert!(a.is_managed(p));
    assert_eq!(a.get_usable_size(p), Some(100));
    match a.release(p) {
        ReleaseOutcome::Poisoned(fill) => {
            assert_eq!(fill.start, a.map_to_shadow(p));
            assert_eq!(fill.full_len, 12);
            assert_eq!(fill.full_value, 0);
            assert_eq!(fill.tail, Some(0));
        }
        other => panic!("unexpected {:?}", other),
    }
    match a.release(p) {
        ReleaseOutcome::Failed(AsanError::DoubleFree(q)) => assert_eq!(q, p),
        other => panic!("unexpected {:?}", other),
    }
}

#[test]
fn release_of_unknown_pointer() {
    let mut a = Allocator::new(options(), PAGE, 44, true);
    assert!(matches!(a.release(0), ReleaseOutcome::Ignored));
    assert!(matches!(a.release(1234), ReleaseOutcome::Failed(AsanError::UnallocatedFree(1234))));
}

#[test]
fn reset_recycles_freed_mapping() {
    let mut a = Allocator::new(options(), PAGE, 44, true);
    let first = take(&mut a, 100);
    let second = take(&mut a, 200);
    assert_ne!(first, second);
    assert!(matches!(a.release(first), ReleaseOutcome::Poisoned(_)));
    let fills = a.reset();
    assert_eq!(fills.len(), 1);
    assert_eq!(fills[0], poison(a.map_to_shadow(first), 100));
    assert_eq!(a.allocation_queue.len(), 1);
    match a.allocate(100, 8) {
        AllocStep::Ready { ptr, pages, unpoison: fill } => {
            assert_eq!(ptr, first);
            assert!(pages.is_empty());
            assert_eq!(fill, unpoison(a.map_to_shadow(first), 100));
            assert_eq!(fill.full_value, 0xff);
            assert_eq!(fill.tail, Some(0xf0));
        }
        other => panic!("unexpected {:?}", other),
    }
    assert_eq!(a.allocation_queue.len(), 0);
    assert_eq!(a.get_usable_size(second), Some(200));
    let third = take(&mut a, 100);
    assert!(third != first && third != second);
    assert_eq!(third % PAGE, 0);
}

#[test]
fn zero_sized_request_is_served_as_sixteen_bytes() {
    let mut a = Allocator::new(options(), PAGE, 44, true);
    let p = take(&mut a, 0);
    assert_eq!(a.get_usable_size(p), Some(16));
}

#[test]
fn too_large_requests() {
    let mut opts = options();
    opts.max_allocation = 1000;
    let mut a = Allocator::new(opts, PAGE, 44, true);
    assert!(matches!(a.allocate(1001, 8), AllocStep::Null));
    opts.max_allocation_panics = true;
    let mut b = Allocator::new(opts, PAGE, 44, true);
    assert!(matches!(b.allocate(1001, 8), AllocStep::TooLarge));
}

#[test]
fn total_limit_and_failed_mapping_give_null() {
    let mut opts = options();
    opts.max_total_allocation = 4 * PAGE;
    let mut a = Allocator::new(opts, PAGE, 44, true);
    let _p = take(&mut a, 10);
    assert!(matches!(a.allocate(10, 8), AllocStep::Null));
    let mut b = Allocator::new(options(), PAGE, 44, true);
    assert!(matches!(b.allocate(10, 8), AllocStep::NeedsMapping { .. }));
    assert!(matches!(b.complete_mapping(false), AllocStep::Null));
}

#[test]
fn lazy_shadow_asks_for_pages() {
    let mut a = Allocator::new(options(), PAGE, 44, false);
    match a.allocate(100, 8) {
        AllocStep::NeedsMapping { addr, len } => {
            assert_eq!(addr, 3 << 44);
            assert_eq!(len, 3 * PAGE);
        }
        other => panic!("unexpected {:?}", other),
    }
    match a.complete_mapping(true) {
        AllocStep::Ready { pages, .. } => {
            assert_eq!(pages.len(), 1);
            let (lo, hi) = pages[0];
            assert_eq!(lo % PAGE, 0);
            assert!(hi > lo);
        }
        other => panic!("unexpected {:?}", other),
    }
}

#[test]
fn leaks_and_find_metadata() {
    let mut a = Allocator::new(options(), PAGE, 44, true);
    let first = take(&mut a, 10);
    let second = take(&mut a, 10);
    a.release(first);
    let leaks = a.check_for_leaks();
    assert_eq!(leaks, vec![AsanError::Leak(second - PAGE)]);
    let m = a.find_metadata(second + 3, 0).unwrap();
    assert_eq!(m.address, second - PAGE);
    assert!(a.find_metadata(first, first - PAGE).is_some());
    let empty = Allocator::new(options(), PAGE, 44, true);
    assert!(empty.find_metadata(5, 0).is_none());
}

#[test]
fn poison_and_unpoison_fills() {
    let f = poison(1000, 17);
    assert_eq!((f.start, f.full_len, f.full_value, f.tail), (1000, 2, 0, Some(0)));
    let g = unpoison(1000, 17);
    assert_eq!((g.full_len, g.full_value, g.tail), (2, 0xff, Some(0x80)));
    let h = unpoison(1000, 16);
    assert_eq!(h.tail, None);
}

#[test]
fn shadow_region_for_memory() {
    let a = Allocator::new(options(), PAGE, 44, false);
    let start = 3u64 << 44;
    let reg = a.map_shadow_for_region(start, start + 800, true).unwrap();
    assert_eq!(reg.shadow_start, a.map_to_shadow(start));
    assert_eq!(reg.shadow_len, 100);
    assert_eq!(reg.unpoison, Some(unpoison(a.map_to_shadow(start), 800)));
    assert!(reg.pages.is_some());
}

#[test]
fn find_metadata_prefers_the_hint() {
    let mut a = Allocator::new(options(), PAGE, 44, true);
    let first = take(&mut a, 10);
    let second = take(&mut a, 10);
    let near_second = second + 5;
    assert_eq!(a.find_metadata(near_second, 0).unwrap().address, second - PAGE);
    assert_eq!(a.find_metadata(near_second, first - PAGE).unwrap().address, first - PAGE);
}

#[test]
fn lazy_shadow_pages_are_mapped_once() {
    let mut a = Allocator::new(options(), PAGE, 44, false);
    let _ = take(&mut a, 100);
    let lo = a.map_shadow_for_region(3 << 44, (3 << 44) + 3 * PAGE, false).unwrap().pages.unwrap();
    assert!(a.claim_shadow_pages(lo.0, lo.1).is_empty());
    assert!(a.should_unpoison_range(3, 3, 5));
    assert!(!a.should_unpoison_range(4, 3, 5));
}
