use paintbrush::errchain::NumericalError;
use paintbrush::rangeset::{InclusiveRange, RangeSet, RangeSetError};

fn r(start: u64, end: u64) -> InclusiveRange {
    InclusiveRange { start, end }
}

#[test]
fn test_insert() {
    let mut mem = RangeSet::new();
    mem.insert(InclusiveRange { start: 0, end: 1 }).unwrap();
    mem.insert(InclusiveRange { start: 4, end: 5 }).unwrap();
    assert!(
        mem.ranges() == &[InclusiveRange { start: 0, end: 1 }, InclusiveRange { start: 4, end: 5 }],
        "Wrong insert 1 in test_insert"
    );
    mem.insert(InclusiveRange { start: 2, end: 3 }).unwrap();
    assert!(mem.ranges() == &[InclusiveRange { start: 0, end: 5 }], "Wrong insert 2 in test_insert");
    mem.insert(InclusiveRange { start: 4, end: 10 }).unwrap();
    assert!(mem.ranges() == &[InclusiveRange { start: 0, end: 10 }], "Wrong insert 3 in test_insert");
}

#[test]
fn test_remove() {
    let mut mem = RangeSet::new();
    mem.insert(InclusiveRange { start: 0, end: 9 }).unwrap();
    assert!(mem.ranges() == [InclusiveRange { start: 0, end: 9 }], "Wrong insert 1 in test_remove");

    mem.remove(InclusiveRange { start: 2, end: 6 }).unwrap();
    assert!(
        mem.ranges() == [InclusiveRange { start: 0, end: 1 }, InclusiveRange { start: 7, end: 9 }],
        "Wrong remove 2 in test_remove"
    );

    mem.insert(InclusiveRange { start: 2, end: 6 }).unwrap();
    assert!(mem.ranges() == [InclusiveRange { start: 0, end: 9 }], "Wrong insert 3 in test_remove");

    mem.remove(InclusiveRange { start: 2, end: 4 }).unwrap();
    assert!(
        mem.ranges() == [InclusiveRange { start: 0, end: 1 }, InclusiveRange { start: 5, end: 9 }],
        "Wrong remove 4 in test_remove"
    );

    mem.insert(InclusiveRange { start: 3, end: 6 }).unwrap();
    assert!(
        mem.ranges() == [InclusiveRange { start: 0, end: 1 }, InclusiveRange { start: 3, end: 9 }],
        "Wrong insert 5 in test_remove"
    );

    mem.remove(InclusiveRange { start: 7, end: 8 }).unwrap();
    assert!(
        mem.ranges()
            == [
                InclusiveRange { start: 0, end: 1 },
                InclusiveRange { start: 3, end: 6 },
                InclusiveRange { start: 9, end: 9 },
            ],
        "Wrong insert 5 in test_remove"
    );
}

#[test]
fn test_allocate() {
    let mut mem = RangeSet::new();
    mem.insert(InclusiveRange { start: 0, end: 32 }).unwrap();
    assert!(mem.ranges() == [InclusiveRange { start: 0, end: 32 }], "Wrong insert in test_allocate");

    let addr = mem.allocate(5, 16).unwrap();
    assert!(mem.ranges() == &[InclusiveRange { start: 5, end: 32 }], "Wrong allocation 1 in test_allocate");
    assert!(addr == 0, "Wrong result addr 1");

    let addr2 = mem.allocate(5, 16).unwrap();
    assert!(addr2 == 0x10, "Wrong result addr 2");
    assert!(
        mem.ranges() == &[InclusiveRange { start: 5, end: 15 }, InclusiveRange { start: 21, end: 32 }],
        "Wrong allocation 2 in test_allocate"
    );
}

#[test]
fn test_fail_allocate() {
    let mut mem = RangeSet::new();
    mem.insert(InclusiveRange { start: 0, end: 32 }).unwrap();
    assert!(mem.allocate(64, 0x100).is_err());
}

#[test]
fn test_delete() {
    let mut mem = RangeSet::new();
    mem.insert(InclusiveRange { start: 1, end: 4 }).unwrap();
    mem.insert(InclusiveRange { start: 0, end: 5 }).unwrap();
    assert!(mem.ranges() == &[InclusiveRange { start: 0, end: 5 }], "Wrong delete");
}

#[test]
fn bridging_range_merges_neighbours() {
    let mut mem = RangeSet::new();
    mem.insert(r(0, 10)).unwrap();
    mem.insert(r(12, 20)).unwrap();
    assert_eq!(mem.len(), 2);
    mem.insert(r(11, 11)).unwrap();
    assert_eq!(mem.ranges(), vec![r(0, 20)]);
}

#[test]
fn removing_middle_splits_and_size_drops() {
    let mut mem = RangeSet::new();
    mem.insert(r(0, 0xFFFF)).unwrap();
    mem.remove(r(0x1000, 0x1FFF)).unwrap();
    assert_eq!(mem.ranges(), vec![r(0, 0x0FFF), r(0x2000, 0xFFFF)]);
    assert_eq!(mem.size(), Ok(0xF000));
}

#[test]
fn page_allocations_come_in_order() {
    let mut mem = RangeSet::new();
    mem.insert(r(0, 0x1FFFF)).unwrap();
    assert_eq!(mem.allocate(0x1000, 0x1000), Ok(0));
    assert_eq!(mem.allocate(0x1000, 0x1000), Ok(0x1000));
    assert_eq!(mem.size(), Ok(0x20000 - 0x2000));
}

#[test]
fn abutting_ranges_are_merged() {
    let mut mem = RangeSet::new();
    mem.insert(r(0, 5)).unwrap();
    mem.insert(r(6, 9)).unwrap();
    assert_eq!(mem.ranges(), vec![r(0, 9)]);
}

#[test]
fn insert_order_does_not_matter() {
    let mut a = RangeSet::new();
    a.insert(r(100, 200)).unwrap();
    a.insert(r(10, 20)).unwrap();
    a.insert(r(21, 99)).unwrap();
    let mut b = RangeSet::new();
    b.insert(r(100, 200)).unwrap();
    b.insert(r(21, 99)).unwrap();
    b.insert(r(10, 20)).unwrap();
    assert_eq!(a.ranges(), b.ranges());
    assert_eq!(a.ranges(), vec![r(10, 200)]);
}

#[test]
fn insert_then_remove_restores() {
    let mut mem = RangeSet::new();
    mem.insert(r(0, 10)).unwrap();
    mem.insert(r(50, 60)).unwrap();
    let before = mem.ranges();
    mem.insert(r(20, 30)).unwrap();
    mem.remove(r(20, 30)).unwrap();
    assert_eq!(mem.ranges(), before);
}

#[test]
fn stored_ranges_keep_a_gap() {
    let mut mem = RangeSet::new();
    mem.insert(r(0, 3)).unwrap();
    mem.insert(r(10, 20)).unwrap();
    mem.remove(r(12, 14)).unwrap();
    mem.insert(r(5, 8)).unwrap();
    mem.insert(r(4, 4)).unwrap();
    let ranges = mem.ranges();
    for (i, x) in ranges.iter().enumerate() {
        for (j, y) in ranges.iter().enumerate() {
            if i != j {
                assert!(x.end + 1 < y.start || y.end + 1 < x.start);
            }
        }
    }
}

#[test]
fn allocation_is_aligned_and_best_fit() {
    let mut mem = RangeSet::new();
    mem.insert(r(0x1001, 0x5000)).unwrap();
    mem.insert(r(0x8000, 0x9fff)).unwrap();
    let before = mem.size().unwrap();
    let a = mem.allocate(0x100, 0x1000).unwrap();
    assert_eq!(a, 0x8000);
    assert_eq!(a & 0xfff, 0);
    assert_eq!(mem.size().unwrap(), before - 0x100);
    assert_eq!(mem.ranges(), vec![r(0x1001, 0x5000), r(0x8100, 0x9fff)]);
}

#[test]
fn range_errors() {
    let mut mem = RangeSet::new();
    assert_eq!(mem.insert(r(5, 4)), Err(RangeSetError::InvalidRange));
    assert_eq!(mem.remove(r(5, 4)), Err(RangeSetError::InvalidRange));
    assert_eq!(mem.allocate(0, 16), Err(RangeSetError::ZeroSizedAllocation));
    assert_eq!(mem.allocate(16, 3), Err(RangeSetError::UnalignedAllocation));
    assert_eq!(mem.allocate(16, 16), Err(RangeSetError::OutOfMemory));
}

#[test]
fn full_set_refuses_insert_and_split() {
    let mut mem = RangeSet::new();
    let mut i = 0u64;
    while mem.len() < 130 {
        mem.insert(r(i * 10 + 1, i * 10 + 5)).unwrap();
        i += 1;
    }
    assert_eq!(mem.insert(r(5000, 5001)), Err(RangeSetError::Full));
    assert_eq!(mem.remove(r(2, 3)), Err(RangeSetError::Full));
    assert_eq!(mem.allocate(1, 2), Err(RangeSetError::Full));
    assert!(mem.remove(r(1, 2)).is_ok());
    assert_eq!(mem.allocate(1, 1), Ok(3));
    assert_eq!(mem.insert(r(6, 8)), Ok(()));
    assert_eq!(mem.len(), 130);
    assert!(mem.ranges().contains(&r(4, 8)));
}

#[test]
fn size_overflow_is_reported() {
    let mut mem = RangeSet::new();
    mem.insert(r(0, u64::MAX)).unwrap();
    assert_eq!(mem.size(), Err(NumericalError::AddOverflow));
    mem.remove(r(0, 0)).unwrap();
    assert_eq!(mem.size(), Ok(u64::MAX));
}

#[test]
fn inclusive_range_queries() {
    assert_eq!(r(2, 5).len(), 4);
    assert_eq!(r(0, 0).len(), 0);
    assert!(r(0, 10).is_valid());
    assert!(!r(3, 1).is_valid());
    assert_eq!(r(0, 10).contains(&r(2, 3)), Ok(true));
    assert_eq!(r(0, 10).contains(&r(2, 11)), Ok(false));
    assert_eq!(r(0, 10).contains(&r(3, 2)), Err(RangeSetError::InvalidRange));
    assert_eq!(r(0, 5).overlaps(&r(6, 9)), Ok(Some(r(6, 6))));
    assert_eq!(r(0, 5).overlaps(&r(3, 9)), Ok(Some(r(3, 6))));
    assert_eq!(r(0, 5).overlaps(&r(7, 9)), Ok(None));
    assert_eq!(r(0, u64::MAX).overlaps(&r(7, u64::MAX)), Ok(Some(r(7, u64::MAX))));
}

#[test]
fn clear_empties_the_set() {
    let mut mem = RangeSet::new();
    mem.insert(r(1, 2)).unwrap();
    mem.clear();
    assert_eq!(mem.len(), 0);
    assert_eq!(mem.size(), Ok(0));
}
