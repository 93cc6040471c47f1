use mini_kv::store::Store;

#[test]
fn get_before_any_set_is_absent() {
    let store = Store::new();
    assert!(store.get(&String::from("hello")).is_none());
}

#[test]
fn set_then_get_round_trips() {
    let mut store = Store::new();
    store.set(String::from("hello"), b"world".to_vec());
    assert_eq!(store.get(&String::from("hello")), Some(b"world".to_vec()));
}

#[test]
fn empty_value_round_trips_and_differs_from_absent() {
    let mut store = Store::new();
    store.set(String::from("empty"), Vec::new());
    assert_eq!(store.get(&String::from("empty")), Some(Vec::new()));
    assert!(store.get(&String::from("missing")).is_none());
}

#[test]
fn binary_value_round_trips_byte_exact() {
    let mut store = Store::new();
    let value: Vec<u8> = vec![0, 255, 10, 13, 0, 128, 7, 1];
    store.set(String::from("bin"), value.clone());
    assert_eq!(store.get(&String::from("bin")), Some(value));
}

#[test]
fn later_set_to_same_key_wins() {
    let mut store = Store::new();
    store.set(String::from("k"), b"one".to_vec());
    store.set(String::from("k"), b"two".to_vec());
    assert_eq!(store.get(&String::from("k")), Some(b"two".to_vec()));
}

#[test]
fn distinct_keys_do_not_interfere() {
    let mut store = Store::new();
    store.set(String::from("a"), b"1".to_vec());
    store.set(String::from("b"), b"2".to_vec());
    store.set(String::from("a"), b"3".to_vec());
    assert_eq!(store.get(&String::from("a")), Some(b"3".to_vec()));
    assert_eq!(store.get(&String::from("b")), Some(b"2".to_vec()));
}
