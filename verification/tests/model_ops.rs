use hashmap_harness::harness::fresh_key;
use hashmap_harness::model::RefModel;

#[test]
fn insert_get_len() {
    let mut m = RefModel::new();
    assert_eq!(m.len(), 0);
    m.insert(5, 10);
    m.insert(7, 14);
    assert_eq!(m.len(), 2);
    assert_eq!(m.get(5), Some(10));
    assert_eq!(m.get(7), Some(14));
    assert_eq!(m.get(8), None);
    assert!(m.contains_key(5));
    assert!(!m.contains_key(8));
    assert_eq!(m.entry_at(0), (5, 10));
    assert_eq!(m.entry_at(1), (7, 14));
}

#[test]
fn replace_makes_new_value_visible() {
    let mut m = RefModel::new();
    m.insert(1, 100);
    m.insert(2, 200);
    let old = m.replace_value(1, 111);
    assert_eq!(old, 100);
    assert_eq!(m.get(1), Some(111));
    assert_ne!(m.get(1), Some(100));
    assert_eq!(m.get(2), Some(200));
    assert_eq!(m.len(), 2);
}

#[test]
fn remove_makes_key_absent() {
    let mut m = RefModel::new();
    m.insert(1, 100);
    m.insert(2, 200);
    m.insert(3, 300);
    let v = m.remove(1);
    assert_eq!(v, 100);
    assert_eq!(m.get(1), None);
    assert!(!m.contains_key(1));
    assert_eq!(m.len(), 2);
    // swap-style removal: the last entry moved into the freed slot
    assert_eq!(m.entry_at(0), (3, 300));
    assert_eq!(m.entry_at(1), (2, 200));
    assert_eq!(m.get(2), Some(200));
    assert_eq!(m.get(3), Some(300));
}

#[test]
fn pick_random_resident_is_member() {
    let mut m = RefModel::new();
    m.insert(10, 1);
    m.insert(20, 2);
    m.insert(30, 3);
    let mut i: usize = 0;
    while i < 50 {
        let (k, v) = m.pick_random_resident();
        assert_eq!(m.get(k), Some(v));
        i += 1;
    }
}

#[test]
fn fresh_key_is_absent() {
    let mut m = RefModel::new();
    m.insert(0, 0);
    m.insert(1, 1);
    let mut i: usize = 0;
    while i < 20 {
        let k = fresh_key(&m);
        assert!(!m.contains_key(k));
        i += 1;
    }
}
