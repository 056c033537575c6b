use bandwidth::rate::Info;
use bandwidth::store::{RateStore, CAPACITY};

#[test]
fn get_returns_what_was_put() {
    let mut store = RateStore::new();
    assert_eq!(store.get(9), None);
    assert!(store.put(9, Info::new(1, 2)));
    assert_eq!(store.get(9), Some(Info::new(1, 2)));
    assert!(store.put(9, Info::new(3, 4)));
    assert_eq!(store.get(9), Some(Info::new(3, 4)));
    assert_eq!(store.len(), 1);
}

#[test]
fn store_rejects_new_keys_past_capacity() {
    let mut store = RateStore::new();
    for entity in 0..CAPACITY as u64 {
        assert!(store.put(entity, Info::new(entity, entity)));
    }
    assert_eq!(store.len(), CAPACITY);
    // A new key is rejected and nothing changes...
    assert!(!store.put(CAPACITY as u64, Info::new(0, 0)));
    assert_eq!(store.get(CAPACITY as u64), None);
    assert_eq!(store.len(), CAPACITY);
    // ...while existing keys can still be updated.
    assert!(store.put(3, Info::new(7, 8)));
    assert_eq!(store.get(3), Some(Info::new(7, 8)));
}
