use hashmap_harness::recency::{RecencyTracker, RECENT_CAP};

#[test]
fn push_appends_in_order() {
    let mut t = RecencyTracker::new();
    assert!(t.is_empty());
    assert_eq!(t.len(), 0);
    t.push(3);
    t.push(1);
    t.push(2);
    assert_eq!(t.len(), 3);
    assert_eq!(t.key_at(0), 3);
    assert_eq!(t.key_at(1), 1);
    assert_eq!(t.key_at(2), 2);
}

#[test]
fn capacity_bound_and_fifo_eviction() {
    let mut t = RecencyTracker::new();
    let mut k: u32 = 0;
    while (k as usize) < 150 {
        t.push(k);
        assert!(t.len() <= RECENT_CAP);
        k += 1;
    }
    assert_eq!(t.len(), RECENT_CAP);
    // the first 50 keys left strictly oldest-first
    let mut i: usize = 0;
    while i < RECENT_CAP {
        assert_eq!(t.key_at(i), (i + 50) as u32);
        i += 1;
    }
}

#[test]
fn pick_is_member() {
    let mut t = RecencyTracker::new();
    t.push(7);
    t.push(8);
    t.push(9);
    let mut i: usize = 0;
    while i < 30 {
        let k = t.pick();
        assert!(k == 7 || k == 8 || k == 9);
        i += 1;
    }
}
