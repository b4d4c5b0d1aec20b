use samus::store::Store;
use samus::store_value::StoreValue;

#[test]
fn test_get_and_set() {
    let mut store = Store::new();
    let test_key = "key".to_string();
    let test_value = "value".to_string();
    let test_ttl = 1000;
    store.set(&test_key, &test_value, &test_ttl).unwrap();
    let store_value = store.get(&test_key).unwrap();
    assert_eq!(store_value, "value");
}

#[test]
fn test_delete() {
    let mut store = Store::new();
    let test_key = "key".to_string();
    let test_value = "value".to_string();
    let test_ttl = 1000;
    store.set(&test_key, &test_value, &test_ttl).unwrap();
    store.delete(&test_key).unwrap();
    let store_value = store.get(&test_key);
    assert_eq!(store_value.is_err(), true);
}

#[test]
fn get_of_unset_key_is_not_found() {
    let mut store = Store::new();
    assert_eq!(store.get(&"missing".to_string()), Err("Key not found"));
    store.set(&"other".to_string(), &"x".to_string(), &0).unwrap();
    assert_eq!(store.get(&"missing".to_string()), Err("Key not found"));
}

#[test]
fn set_returns_value_written_and_get_reads_it() {
    let mut store = Store::new();
    let written = store.set(&"k".to_string(), &"v".to_string(), &-7).unwrap();
    assert_eq!(written, "v");
    assert_eq!(store.get(&"k".to_string()), Ok("v".to_string()));
}

#[test]
fn second_set_replaces_first() {
    let mut store = Store::new();
    let k = "k".to_string();
    store.set(&k, &"first".to_string(), &1).unwrap();
    let written = store.set(&k, &"second".to_string(), &2).unwrap();
    assert_eq!(written, "second");
    assert_eq!(store.get(&k), Ok("second".to_string()));
}

#[test]
fn delete_returns_removed_value() {
    let mut store = Store::new();
    let k = "k".to_string();
    store.set(&k, &"v".to_string(), &i64::MAX).unwrap();
    assert_eq!(store.delete(&k), Ok("v".to_string()));
    assert_eq!(store.get(&k), Err("Key not found"));
}

#[test]
fn delete_of_missing_key_returns_empty() {
    let mut store = Store::new();
    assert_eq!(store.delete(&"missing".to_string()), Ok(String::new()));
    assert!(store.get(&"missing".to_string()).is_err());
}

#[test]
fn store_value_clone_keeps_fields() {
    let entry = StoreValue { value: "v".to_string(), ttl: 42 };
    let copy = entry.clone();
    assert_eq!(copy.value, "v");
    assert_eq!(copy.ttl, 42);
}
