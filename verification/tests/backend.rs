use kyval::{InMemoryStore, MemoryBackend, Store};
use serde_json::Value;

#[test]
fn expiry_is_masked_at_read_time_but_row_persists() {
    let mut b = MemoryBackend::new();
    b.set("ns", "k", Value::from("v"), Some(1), 1000);
    // before the expiry instant the entry is live
    assert_eq!(b.get("ns", "k", 1000), Some(Value::from("v")));
    // at and after the instant it is masked as absent
    assert_eq!(b.get("ns", "k", 1001), None);
    assert_eq!(b.get("ns", "k", 5000), None);
    assert!(b.list("ns", 5000).iter().all(|m| m.key != "k"));
    // a fresh write revives the slot: the row was replaced, not resurrected
    b.set("ns", "k", Value::from("w"), None, 6000);
    assert_eq!(b.get("ns", "k", 9999), Some(Value::from("w")));
}

#[test]
fn expiry_instant_saturates() {
    let mut b = MemoryBackend::new();
    b.set("ns", "k", Value::from("v"), Some(u64::MAX), 1000);
    assert_eq!(b.get("ns", "k", u64::MAX - 1), Some(Value::from("v")));
}

#[test]
fn clear_isolates_namespaces_on_a_shared_medium() {
    let mut b = MemoryBackend::new();
    b.set("left", "a", Value::from(1u64), None, 0);
    b.set("left", "b", Value::from(2u64), None, 0);
    b.set("right", "a", Value::from(3u64), None, 0);
    b.set("right", "c", Value::from(4u64), None, 0);
    b.clear("left");
    assert_eq!(b.get("left", "a", 0), None);
    assert_eq!(b.get("left", "b", 0), None);
    assert!(b.list("left", 0).is_empty());
    assert_eq!(b.get("right", "a", 0), Some(Value::from(3u64)));
    assert_eq!(b.get("right", "c", 0), Some(Value::from(4u64)));
    assert_eq!(b.list("right", 0).len(), 2);
}

#[test]
fn namespaces_do_not_share_keys() {
    let mut b = MemoryBackend::new();
    b.set("one", "k", Value::from("first"), None, 0);
    b.set("two", "k", Value::from("second"), None, 0);
    assert_eq!(b.get("one", "k", 0), Some(Value::from("first")));
    assert_eq!(b.get("two", "k", 0), Some(Value::from("second")));
    b.remove("one", "k");
    assert_eq!(b.get("one", "k", 0), None);
    assert_eq!(b.get("two", "k", 0), Some(Value::from("second")));
}

#[test]
fn remove_many_skips_absent_keys() {
    let mut b = MemoryBackend::new();
    b.set("ns", "k1", Value::from(1u64), None, 0);
    b.set("ns", "k2", Value::from(2u64), None, 0);
    let keys = ["k1".to_string(), "k2".to_string(), "k3".to_string()];
    b.remove_many("ns", &keys);
    assert_eq!(b.get("ns", "k1", 0), None);
    assert_eq!(b.get("ns", "k2", 0), None);
    assert_eq!(b.get("ns", "k3", 0), None);
}

#[test]
fn set_with_ttl_resets_expiry_on_overwrite() {
    let mut b = MemoryBackend::new();
    b.set("ns", "k", Value::from("short"), Some(1), 100);
    b.set("ns", "k", Value::from("long"), Some(1000), 100);
    // the first write's expiry no longer applies
    assert_eq!(b.get("ns", "k", 500), Some(Value::from("long")));
    let prev = b.set("ns", "k", Value::from("next"), None, 500);
    let prev = prev.expect("the overwritten entry is reported");
    assert_eq!(prev.value, Value::from("long"));
    assert_eq!(prev.expires_at, Some(1100));
}

#[test]
fn store_over_populated_medium_sees_only_its_namespace() {
    let mut b = MemoryBackend::new();
    b.set("other", "foreign", Value::from("kept"), None, 0);
    let mut store = InMemoryStore::with_backend("mine".to_string(), b);
    store.initialize().unwrap();
    assert!(store.list(0).unwrap().is_empty());
    assert_eq!(store.get("foreign", 0).unwrap(), None);
    store.set("local", Value::from(1u64), None, 0).unwrap();
    store.clear().unwrap();
    assert!(store.list(0).unwrap().is_empty());
}

#[test]
fn list_is_stable_absent_mutation() {
    let mut b = MemoryBackend::new();
    b.set("ns", "a", Value::from(1u64), None, 0);
    b.set("ns", "b", Value::from(2u64), None, 0);
    let first: Vec<(String, Value)> =
        b.list("ns", 0).into_iter().map(|m| (m.key, m.value)).collect();
    let second: Vec<(String, Value)> =
        b.list("ns", 0).into_iter().map(|m| (m.key, m.value)).collect();
    assert_eq!(first, second);
}
