use before_colony::hotpath::{count, note, set_hot, violations, HotState};
use std::sync::atomic::AtomicU64;

#[test]
fn counts_allocations_only_inside_region() {
    let total = AtomicU64::new(0);
    let mut thread = HotState::new();
    // Outside a region: not counted.
    assert!(!note(&mut thread, &total));
    let ((), s, n) = count(thread, |mut s| {
        let mut x = 0u64;
        for i in 0..1000u64 {
            x = x.wrapping_add(i);
        }
        std::hint::black_box(x);
        let _ = &mut s;
        ((), s)
    });
    thread = s;
    assert_eq!(n, 0);
    let (b, s, n) = count(thread, |mut s| {
        // One allocation for the box.
        note(&mut s, &total);
        (Box::new(7u64), s)
    });
    thread = s;
    assert_eq!(*b, 7);
    assert_eq!(n, 1);
    assert!(!thread.hot);
    assert_eq!(violations(&total), 1);
}

#[test]
fn regions_nest_and_restore_the_flag() {
    let total = AtomicU64::new(0);
    let mut thread = HotState::new();
    set_hot(&mut thread, true);
    note(&mut thread, &total);
    let (inner_n, s, outer_n) = count(thread, |s| {
        let (_, mut s, n) = count(s, |mut s| {
            note(&mut s, &total);
            note(&mut s, &total);
            ((), s)
        });
        note(&mut s, &total);
        (n, s)
    });
    assert_eq!(inner_n, 2);
    assert_eq!(outer_n, 3);
    assert!(s.hot);
    assert_eq!(s.count, 4);
    set_hot(&mut thread, false);
    assert!(!note(&mut thread, &total));
    assert_eq!(violations(&total), 4);
}

#[test]
fn the_outer_region_counts_what_the_inner_one_did() {
    let total = AtomicU64::new(0);
    let thread = HotState { hot: false, count: u64::MAX - 1 };
    let (inner_n, s, outer_n) = count(thread, |mut s| {
        note(&mut s, &total);
        let (_, mut s, k) = count(s, |mut s| {
            note(&mut s, &total);
            note(&mut s, &total);
            ((), s)
        });
        note(&mut s, &total);
        note(&mut s, &total);
        (k, s)
    });
    // The count wraps, and both regions still read back what they made.
    assert_eq!(inner_n, 2);
    assert_eq!(outer_n, 5);
    assert!(!s.hot);
    assert_eq!(s.count, 3);
}
