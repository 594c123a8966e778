use gg_tracer::kvs::KvStore;

#[test]
fn get_stored_value() {
    let mut store = KvStore::new();
    store.set("key1".to_owned(), "value1".to_owned());
    store.set("key2".to_owned(), "value2".to_owned());
    assert_eq!(store.get("key1".to_owned()), Some("value1".to_owned()));
    assert_eq!(store.get("key2".to_owned()), Some("value2".to_owned()));
}

#[test]
fn overwrite_value() {
    let mut store = KvStore::new();
    store.set("key1".to_owned(), "value1".to_owned());
    assert_eq!(store.get("key1".to_owned()), Some("value1".to_owned()));
    store.set("key1".to_owned(), "value2".to_owned());
    assert_eq!(store.get("key1".to_owned()), Some("value2".to_owned()));
}

#[test]
fn get_non_existent_value() {
    let mut store = KvStore::new();
    store.set("key1".to_owned(), "value1".to_owned());
    assert_eq!(store.get("key2".to_owned()), None);
}

#[test]
fn remove_key() {
    let mut store = KvStore::new();
    store.set("key1".to_owned(), "value1".to_owned());
    store.set("key2".to_owned(), "value2".to_owned());
    store.remove("key1".to_owned());
    assert_eq!(store.get("key1".to_owned()), None);
    assert_eq!(store.get("key2".to_owned()), Some("value2".to_owned()));
    // Removing a key that is not there changes nothing.
    store.remove("key1".to_owned());
    assert_eq!(store.get("key2".to_owned()), Some("value2".to_owned()));
}

#[test]
fn default_store_is_empty() {
    let mut store = KvStore::default();
    assert_eq!(store.get("".to_owned()), None);
    store.set("".to_owned(), "empty key".to_owned());
    assert_eq!(store.get("".to_owned()), Some("empty key".to_owned()));
}
