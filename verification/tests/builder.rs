use kyval::adapter::KyvalStoreBuilder;
use kyval::{Kyval, Store, StoreError};
use serde_json::Value;

#[test]
fn builds_in_memory_store_with_custom_table_name() {
    let store = KyvalStoreBuilder::new()
        .uri(":memory:")
        .table_name("custom_table_name")
        .build()
        .unwrap();
    let mut kv = Kyval::try_new(store).unwrap();
    kv.set("k", Value::from("v")).unwrap();
    assert_eq!(kv.get("k").unwrap(), Some(Value::from("v")));
}

#[test]
fn missing_uri_is_a_construction_failure() {
    let r = KyvalStoreBuilder::new().build();
    assert!(matches!(r, Err(StoreError::BackendInitError { .. })));
}

#[test]
fn unrecognized_uri_is_a_construction_failure() {
    let r = KyvalStoreBuilder::new().uri("postgres://localhost/db").build();
    assert!(matches!(r, Err(StoreError::BackendInitError { .. })));
}

#[test]
fn last_option_write_wins() {
    let store = KyvalStoreBuilder::new()
        .uri("bogus")
        .uri(":memory:")
        .table_name("first")
        .table_name("second")
        .build();
    assert!(store.is_ok());
}

#[test]
fn built_store_starts_empty_and_uninitialized() {
    let store = KyvalStoreBuilder::new().uri(":memory:").build().unwrap();
    assert!(matches!(store.get("anything", 0), Err(StoreError::NotInitialized)));
    let mut store = KyvalStoreBuilder::new().uri(":memory:").build().unwrap();
    store.initialize().unwrap();
    assert_eq!(store.get("anything", 0).unwrap(), None);
    assert!(store.list(0).unwrap().is_empty());
}

#[test]
fn default_facade_uses_in_memory_store() {
    let mut kv: Kyval<kyval::InMemoryStore> = Kyval::default();
    assert!(kv.list().unwrap().is_empty());
    kv.set("k", Value::from(1u64)).unwrap();
    assert_eq!(kv.list().unwrap().len(), 1);
}
