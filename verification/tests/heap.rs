use lib::heap::{Heap, Tag, TAG_SIZE};
use lib::memory_region::Region;

fn heap() -> Heap {
    Heap::new(Region { start: 0x1000, end: 0x2000 })
}

#[test]
fn new_heap_is_one_free_chunk() {
    let h = heap();
    assert_eq!(h.tags.len(), 2);
    assert_eq!(h.total_free(), 0x1000 - 2 * TAG_SIZE);
    assert_eq!(h.tags[1].0, 0x2000 - TAG_SIZE);
    assert!(h.tags[1].1.is_end_tag());
}

#[test]
fn allocation_splits_the_first_fitting_chunk() {
    let mut h = heap();
    let p = h.allocate(100, 16).unwrap();
    assert_eq!(p, 0x1000 + TAG_SIZE);
    assert_eq!(p % 16, 0);
    assert_eq!(h.tags.len(), 3);
    assert!(h.tags[0].1.is_used());
    // The rest starts at the first even address after the allocation.
    assert_eq!(h.tags[1].0, 0x1000 + TAG_SIZE + 100);
    assert!(!h.tags[1].1.is_used());
    let q = h.allocate(8, 64).unwrap();
    assert_eq!(q % 64, 0);
    assert!(q >= h.tags[1].0 + TAG_SIZE);
}

#[test]
fn allocation_fails_when_nothing_fits() {
    let mut h = heap();
    assert_eq!(h.allocate(0x2000, 1), None);
    assert_eq!(h.tags.len(), 2);
}

#[test]
fn small_remainders_are_not_split_off() {
    let mut h = heap();
    let whole = 0x1000 - 2 * TAG_SIZE;
    let p = h.allocate(whole - 10, 1).unwrap();
    assert_eq!(p, 0x1000 + TAG_SIZE);
    assert_eq!(h.tags.len(), 2);
    assert!(h.tags[0].1.is_used());
    assert_eq!(h.total_free(), 0);
}

#[test]
fn freeing_joins_adjacent_free_chunks() {
    let mut h = heap();
    let a = h.allocate(64, 8).unwrap();
    let b = h.allocate(64, 8).unwrap();
    let c = h.allocate(64, 8).unwrap();
    assert_eq!(h.tags.len(), 5);
    h.deallocate(b, 8);
    assert_eq!(h.tags.len(), 5);
    h.deallocate(a, 8);
    // The chunks of `a` and `b` become one.
    assert_eq!(h.tags.len(), 4);
    h.deallocate(c, 8);
    // Everything is one free chunk again.
    assert_eq!(h.tags.len(), 2);
    assert_eq!(h.total_free(), 0x1000 - 2 * TAG_SIZE);
}

#[test]
fn tags_encode_the_used_bit() {
    let mut t = Tag::new(false, 4, 0x3000);
    assert!(t.check_magic());
    assert!(!t.is_used());
    assert_eq!(t.next_tag_addr(), 0x3000);
    assert_eq!(t.chunk_size(0x2000), 0x1000 - TAG_SIZE);
    t.set_used(true);
    assert!(t.is_used());
    assert_eq!(t.next_tag_addr(), 0x3000);
    assert_eq!(t.align(), 4);
    assert_eq!(Tag::new(false, 1, 0).chunk_size(0x5000), 0);
}

#[test]
fn size_counts_and_stats() {
    let mut h = heap();
    h.allocate(100, 1).unwrap();
    h.allocate(100, 1).unwrap();
    h.allocate(50, 1).unwrap();
    let used = h.size_counts(true);
    assert_eq!(used.len(), 32);
    assert_eq!(used[0], (100, 2));
    assert_eq!(used[1], (50, 1));
    assert_eq!(used[2], (0, 0));
    // The free rest and the end tag, whose chunk is empty.
    let free = h.size_counts(false);
    let rest = 0x1000 - 5 * TAG_SIZE - 250;
    assert_eq!(free[0], (rest, 1));
    assert_eq!(free[1], (0, 1));
    let (used_sorted, free_sorted) = h.stats();
    assert_eq!(used_sorted[0], (100, 2));
    assert_eq!(used_sorted[1], (50, 1));
    assert!(used_sorted.windows(2).all(|w| w[0].1 >= w[1].1));
    assert_eq!(free_sorted.len(), 32);
    assert!(free_sorted.contains(&(rest, 1)));
}

#[test]
fn sorting_by_count_keeps_the_entries() {
    let v = vec![(1, 3), (2, 7), (3, 0), (4, 7), (5, 1)];
    let s = lib::heap::sort_by_count_desc(v.clone());
    assert_eq!(s.iter().map(|x| x.1).collect::<Vec<_>>(), vec![7, 7, 3, 1, 0]);
    let mut a = s.clone();
    let mut b = v;
    a.sort();
    b.sort();
    assert_eq!(a, b);
}

#[test]
fn freeing_undoes_an_allocation() {
    let mut h = heap();
    let a = h.allocate(40, 8).unwrap();
    let before = h.tags.clone();
    // A split chunk is joined again.
    let p = h.allocate(100, 16).unwrap();
    assert_ne!(h.tags, before);
    h.deallocate(p, 16);
    assert_eq!(h.tags, before);
    // A chunk used whole gets its tag back.
    let mut g = Heap::new(Region { start: 0x1000, end: 0x1000 + 4 * TAG_SIZE + 64 });
    let q = g.allocate(32, 1).unwrap();
    let before = g.tags.clone();
    let r = g.allocate(31, 1).unwrap();
    assert_eq!(g.tags.len(), 3);
    g.deallocate(r, 1);
    assert_eq!(g.tags, before);
    g.deallocate(q, 1);
    h.deallocate(a, 8);
    assert_eq!(h.tags.len(), 2);
}
