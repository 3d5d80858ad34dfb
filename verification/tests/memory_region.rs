use lib::memory_region::{OverlappingWith, Region};

fn reg(start: usize, end: usize) -> Region {
    Region { start, end }
}

#[test]
fn region_from_start_len_and_size() {
    let r = Region::from_start_len(0x1000, 0x2000);
    assert_eq!(r.start, 0x1000);
    assert_eq!(r.end, 0x3000);
    assert_eq!(r.size(), 0x2000);
}

#[test]
fn overlapping_with_all_kinds() {
    let r = reg(100, 200);
    assert_eq!(reg(50, 250).overlapping_with(r), OverlappingWith::Covers);
    assert_eq!(reg(150, 250).overlapping_with(r), OverlappingWith::StartsIn);
    assert_eq!(reg(120, 180).overlapping_with(r), OverlappingWith::IsIn);
    assert_eq!(reg(100, 200).overlapping_with(r), OverlappingWith::IsIn);
    assert_eq!(reg(50, 150).overlapping_with(r), OverlappingWith::EndsIn);
    assert_eq!(reg(50, 100).overlapping_with(r), OverlappingWith::EndsIn);
    assert_eq!(reg(0, 50).overlapping_with(r), OverlappingWith::NoOverlap);
    assert_eq!(reg(200, 300).overlapping_with(r), OverlappingWith::NoOverlap);
}

#[test]
fn conflicts_and_containment() {
    let r = reg(100, 200);
    assert!(reg(150, 250).conflicts_with(&r));
    assert!(!reg(200, 250).conflicts_with(&r));
    assert!(!reg(0, 100).conflicts_with(&r));
    assert!(reg(120, 130).is_in(&r));
    assert!(!reg(90, 130).is_in(&r));
}
