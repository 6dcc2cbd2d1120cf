use egui_backend_selector::{load_store, KVStorage};

#[test]
fn empty_store_has_nothing() {
    let store = KVStorage::new(Vec::new());
    assert_eq!(store.get_string("payload"), None);
    assert!(!store.is_dirty());
}

#[test]
fn loaded_store_reads_back_and_is_clean() {
    let store = KVStorage::new(vec![
        ("a".to_string(), "1".to_string()),
        ("b".to_string(), "2".to_string()),
        ("a".to_string(), "3".to_string()),
    ]);
    assert_eq!(store.get_string("a"), Some("3".to_string()));
    assert_eq!(store.get_string("b"), Some("2".to_string()));
    assert_eq!(store.get_string("c"), None);
    assert!(!store.is_dirty());
}

#[test]
fn set_then_get_reads_back() {
    let mut store = KVStorage::new(Vec::new());
    store.set_string("payload", "hello".to_string());
    assert_eq!(store.get_string("payload"), Some("hello".to_string()));
    store.set_string("payload", "again".to_string());
    store.set_string("other", "x".to_string());
    assert_eq!(store.get_string("payload"), Some("again".to_string()));
    assert_eq!(store.get_string("other"), Some("x".to_string()));
    assert!(store.is_dirty());
}

#[test]
fn flush_skips_a_clean_store() {
    let mut store = KVStorage::new(vec![("k".to_string(), "v".to_string())]);
    store.flush(|_| -> bool { panic!("a clean store must not be written") });
    assert!(!store.is_dirty());
}

#[test]
fn flush_writes_bytes_that_load_back_and_cleans() {
    let mut store = KVStorage::new(vec![("k".to_string(), "v".to_string())]);
    store.set_string("k", "w".to_string());
    store.set_string("n", "m \"quoted\"".to_string());
    let mut written: Vec<u8> = Vec::new();
    store.flush(|bytes| {
        written = bytes.clone();
        true
    });
    assert!(!store.is_dirty());
    let reloaded = load_store(Some(&written)).expect("written state loads back");
    assert!(!reloaded.is_dirty());
    assert_eq!(reloaded.get_string("k"), Some("w".to_string()));
    assert_eq!(reloaded.get_string("n"), Some("m \"quoted\"".to_string()));
    assert_eq!(reloaded.get_string("other"), None);
}

#[test]
fn failed_flush_keeps_the_store_dirty() {
    let mut store = KVStorage::new(Vec::new());
    store.set_string("k", "v".to_string());
    store.flush(|_| false);
    assert!(store.is_dirty());
    assert_eq!(store.get_string("k"), Some("v".to_string()));
    let mut called = false;
    store.flush(|_| {
        called = true;
        true
    });
    assert!(called);
    assert!(!store.is_dirty());
}

#[test]
fn load_without_saved_state_is_empty_and_clean() {
    let store = load_store(None).expect("no saved state gives an empty store");
    assert_eq!(store.get_string("payload"), None);
    assert!(!store.is_dirty());
}

#[test]
fn load_reads_a_ron_map() {
    let saved = b"{\"payload\": \"hello\", \"x\": \"y\"}";
    let store = load_store(Some(saved)).expect("a RON map of strings loads");
    assert_eq!(store.get_string("payload"), Some("hello".to_string()));
    assert_eq!(store.get_string("x"), Some("y".to_string()));
    assert!(!store.is_dirty());
}

#[test]
fn load_refuses_invalid_data() {
    assert!(load_store(Some(b"not ron at all {")).is_none());
    assert!(load_store(Some(b"[1, 2, 3]")).is_none());
}
