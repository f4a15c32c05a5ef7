use kyval::{InMemoryStore, Kyval, KyvalError, Store, StoreError};
use serde_json::Value;

#[test]
fn round_trip_string() {
    let mut kv: Kyval<InMemoryStore> = Kyval::default();
    kv.set("string", serde_json::to_value("life long").unwrap()).unwrap();
    match kv.get("string").unwrap() {
        Some(value) => {
            let s: String = serde_json::from_value(value).unwrap();
            assert_eq!(s, "life long");
        }
        None => panic!("value must be present"),
    }
}

#[test]
fn round_trip_array() {
    let mut kv: Kyval<InMemoryStore> = Kyval::default();
    kv.set("array", serde_json::to_value(vec!["hola", "test"]).unwrap()).unwrap();
    match kv.get("array").unwrap() {
        Some(value) => {
            let array: Vec<String> = serde_json::from_value(value).unwrap();
            assert_eq!(array, vec!["hola".to_string(), "test".to_string()]);
        }
        None => panic!("value must be present"),
    }
}

#[test]
fn round_trip_nested_structure() {
    let mut kv: Kyval<InMemoryStore> = Kyval::default();
    let v = serde_json::to_value((1u64, vec!["a".to_string()], false)).unwrap();
    kv.set("nested", v.clone()).unwrap();
    assert_eq!(kv.get("nested").unwrap(), Some(v));
}

#[test]
fn get_absent_is_none() {
    let kv: Kyval<InMemoryStore> = Kyval::default();
    assert_eq!(kv.get("missing").unwrap(), None);
}

#[test]
fn overwrite_replaces_value_and_leaves_no_trace() {
    let mut kv: Kyval<InMemoryStore> = Kyval::default();
    let v1 = serde_json::to_value("first").unwrap();
    let v2 = serde_json::to_value("second").unwrap();
    kv.set("k", v1.clone()).unwrap();
    kv.set("k", v2.clone()).unwrap();
    assert_eq!(kv.get("k").unwrap(), Some(v2.clone()));
    let entries = kv.list().unwrap();
    assert_eq!(entries.len(), 1);
    assert_eq!(entries[0].key, "k");
    assert_eq!(entries[0].value, v2);
    assert!(entries.iter().all(|m| m.value != v1));
}

#[test]
fn set_reports_overwritten_entry() {
    let mut kv: Kyval<InMemoryStore> = Kyval::default();
    let v1 = serde_json::to_value(1u64).unwrap();
    let v2 = serde_json::to_value(2u64).unwrap();
    let prev = kv.set("k", v1.clone()).unwrap();
    assert!(prev.is_none());
    let prev = kv.set("k", v2).unwrap();
    let prev = prev.expect("the first entry must be reported");
    assert_eq!(prev.key, "k");
    assert_eq!(prev.value, v1);
    assert_eq!(prev.expires_at, None);
}

#[test]
fn ttl_zero_is_masked_immediately() {
    let mut kv: Kyval<InMemoryStore> = Kyval::default();
    kv.set_with_ttl("temp", serde_json::to_value("gone").unwrap(), 0).unwrap();
    assert_eq!(kv.get("temp").unwrap(), None);
    assert!(kv.list().unwrap().iter().all(|m| m.key != "temp"));
}

#[test]
fn ttl_far_in_the_future_stays_live() {
    let mut kv: Kyval<InMemoryStore> = Kyval::default();
    let v = serde_json::to_value("still here").unwrap();
    kv.set_with_ttl("temp", v.clone(), 3600).unwrap();
    assert_eq!(kv.get("temp").unwrap(), Some(v));
}

#[test]
fn remove_absent_key_succeeds_twice() {
    let mut kv: Kyval<InMemoryStore> = Kyval::default();
    kv.remove("missing").unwrap();
    kv.remove("missing").unwrap();
    assert_eq!(kv.get("missing").unwrap(), None);
}

#[test]
fn remove_deletes_entry() {
    let mut kv: Kyval<InMemoryStore> = Kyval::default();
    kv.set("k", serde_json::to_value(7u64).unwrap()).unwrap();
    kv.remove("k").unwrap();
    assert_eq!(kv.get("k").unwrap(), None);
    assert!(kv.list().unwrap().is_empty());
}

#[test]
fn remove_many_with_partly_absent_batch() {
    let mut kv: Kyval<InMemoryStore> = Kyval::default();
    kv.set("k1", serde_json::to_value(1u64).unwrap()).unwrap();
    kv.set("k2", serde_json::to_value(2u64).unwrap()).unwrap();
    kv.set("other", serde_json::to_value(9u64).unwrap()).unwrap();
    let keys = ["k1".to_string(), "k2".to_string(), "k3".to_string()];
    kv.remove_many(&keys).unwrap();
    assert_eq!(kv.get("k1").unwrap(), None);
    assert_eq!(kv.get("k2").unwrap(), None);
    assert_eq!(kv.get("k3").unwrap(), None);
    assert_eq!(kv.get("other").unwrap(), Some(serde_json::to_value(9u64).unwrap()));
}

#[test]
fn clear_empties_the_namespace() {
    let mut kv: Kyval<InMemoryStore> = Kyval::default();
    kv.set("a", serde_json::to_value(1u64).unwrap()).unwrap();
    kv.set("b", serde_json::to_value(2u64).unwrap()).unwrap();
    kv.clear().unwrap();
    assert!(kv.list().unwrap().is_empty());
    kv.clear().unwrap();
    assert!(kv.list().unwrap().is_empty());
}

#[test]
fn list_shows_every_live_entry_once() {
    let mut kv: Kyval<InMemoryStore> = Kyval::default();
    kv.set("a", Value::from(1u64)).unwrap();
    kv.set("b", Value::from(2u64)).unwrap();
    kv.set("a", Value::from(3u64)).unwrap();
    let mut entries = kv.list().unwrap();
    entries.sort_by(|x, y| x.key.cmp(&y.key));
    assert_eq!(entries.len(), 2);
    assert_eq!(entries[0].key, "a");
    assert_eq!(entries[0].value, Value::from(3u64));
    assert_eq!(entries[1].key, "b");
    assert_eq!(entries[1].value, Value::from(2u64));
}

#[test]
fn two_writers_leave_exactly_one_of_the_values() {
    let mut kv: Kyval<InMemoryStore> = Kyval::default();
    let v1 = serde_json::to_value("from caller one").unwrap();
    let v2 = serde_json::to_value("from caller two").unwrap();
    kv.set("k", v1.clone()).unwrap();
    kv.set("k", v2.clone()).unwrap();
    let got = kv.get("k").unwrap().expect("the key must hold a value");
    assert!(got == v1 || got == v2);
    assert_eq!(got, v2);
}

#[test]
fn try_new_initializes_the_store() {
    let store = InMemoryStore::new("custom_table".to_string());
    let mut kv = Kyval::try_new(store).expect("in-memory initialization cannot fail");
    kv.set("k", Value::Null).unwrap();
    assert_eq!(kv.get("k").unwrap(), Some(Value::Null));
}

#[test]
fn uninitialized_store_reports_not_initialized() {
    let store = kyval::adapter::KyvalStoreBuilder::new()
        .uri(":memory:")
        .build()
        .unwrap();
    let r = store.get("k", 0);
    assert!(matches!(r, Err(StoreError::NotInitialized)));
}

#[test]
fn store_error_wraps_into_kyval_error() {
    let e = KyvalError::from(StoreError::NotInitialized);
    assert!(matches!(e, KyvalError::StoreError(StoreError::NotInitialized)));
}
