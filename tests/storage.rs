use synknodes::protocol::{decode_request, handle_command, save_reply, Command, Step};
use synknodes::storage::snapshot_path;
use synknodes::{Storage, SynkError};

#[test]
fn test_storage_basic_operations() {
    let mut storage = Storage::new("/tmp/synk-test", None).unwrap();

    storage.set("key1".to_string(), "value1".to_string()).unwrap();
    assert_eq!(storage.get("key1"), Some("value1".to_string()));
    assert_eq!(storage.len(), 1);
}

#[test]
fn set_then_get_returns_value() {
    let mut storage = Storage::new("data", None).unwrap();
    storage.set("a".to_string(), "1".to_string()).unwrap();
    assert_eq!(storage.get("a"), Some("1".to_string()));
    assert_eq!(storage.get("b"), None);
}

#[test]
fn last_write_wins() {
    let mut storage = Storage::new("data", None).unwrap();
    storage.set("k".to_string(), "first".to_string()).unwrap();
    storage.set("k".to_string(), "second".to_string()).unwrap();
    storage.set("k".to_string(), "third".to_string()).unwrap();
    assert_eq!(storage.get("k"), Some("third".to_string()));
    assert_eq!(storage.len(), 1);
    assert_eq!(storage.keys(), vec!["k".to_string()]);
}

#[test]
fn reload_from_snapshot_keeps_values() {
    let mut storage = Storage::new("data", None).unwrap();
    storage.set("x".to_string(), "1".to_string()).unwrap();
    let snapshot = storage.set("y".to_string(), "two words".to_string()).unwrap();
    let reloaded = Storage::new("data", Some(snapshot)).unwrap();
    assert_eq!(reloaded.get("x"), Some("1".to_string()));
    assert_eq!(reloaded.get("y"), Some("two words".to_string()));
    assert_eq!(reloaded.len(), 2);
}

#[test]
fn snapshot_is_a_json_object() {
    let mut storage = Storage::new("data", None).unwrap();
    storage.set("b".to_string(), "2".to_string()).unwrap();
    let snapshot = storage.set("a".to_string(), "1".to_string()).unwrap();
    assert_eq!(snapshot, "{\"a\":\"1\",\"b\":\"2\"}");
    assert_eq!(storage.snapshot().unwrap(), snapshot);
}

#[test]
fn empty_store_snapshot() {
    let storage = Storage::new("data", None).unwrap();
    assert_eq!(storage.snapshot().unwrap(), "{}");
    assert_eq!(storage.len(), 0);
    assert!(storage.keys().is_empty());
}

#[test]
fn keys_after_distinct_sets() {
    let mut storage = Storage::new("data", None).unwrap();
    for k in ["k1", "k2", "k3", "k4"] {
        storage.set(k.to_string(), format!("v-{}", k)).unwrap();
    }
    let mut keys = storage.keys();
    keys.sort();
    assert_eq!(keys, vec!["k1", "k2", "k3", "k4"]);
    assert_eq!(storage.len(), 4);
}

#[test]
fn disjoint_writes_all_observable() {
    let mut storage = Storage::new("data", None).unwrap();
    for i in 0..50 {
        storage.set(format!("key{}", i), format!("value{}", i)).unwrap();
    }
    for i in 0..50 {
        assert_eq!(storage.get(&format!("key{}", i)), Some(format!("value{}", i)));
    }
    assert_eq!(storage.len(), 50);
}

#[test]
fn file_path_is_in_data_dir() {
    let storage = Storage::new("/var/synk", None).unwrap();
    assert_eq!(storage.file_path(), "/var/synk/storage.json");
    assert_eq!(snapshot_path("./data"), "./data/storage.json");
}

#[test]
fn empty_snapshot_loads_empty() {
    let storage = Storage::new("data", Some(String::new())).unwrap();
    assert_eq!(storage.len(), 0);
}

#[test]
fn corrupt_snapshot_is_refused() {
    match Storage::new("data", Some("{not json".to_string())) {
        Err(SynkError::Serialization(_)) => {}
        _ => panic!("expected a serialization error"),
    }
    match Storage::new("data", Some("{\"a\":1}".to_string())) {
        Err(SynkError::Serialization(_)) => {}
        _ => panic!("expected a serialization error"),
    }
}

#[test]
fn snapshot_with_repeated_key_keeps_last() {
    let storage = Storage::new("data", Some("{\"a\":\"1\",\"a\":\"2\"}".to_string())).unwrap();
    assert_eq!(storage.get("a"), Some("2".to_string()));
    assert_eq!(storage.len(), 1);
}

fn reply(storage: &mut Storage, request: &str) -> String {
    match handle_command(storage, decode_request(request.as_bytes())) {
        Step::Reply(t) => t,
        Step::Save(_) => save_reply(&Ok(())),
    }
}

#[test]
fn tcp_get_missing() {
    let mut storage = Storage::new("data", None).unwrap();
    assert_eq!(reply(&mut storage, "GET missing"), "NOTFOUND\n");
}

#[test]
fn tcp_put_value_with_space() {
    let mut storage = Storage::new("data", None).unwrap();
    assert_eq!(reply(&mut storage, "PUT a b c"), "OK\n");
    assert_eq!(storage.get("a"), Some("b c".to_string()));
    assert_eq!(reply(&mut storage, "GET a\n"), "VALUE b c\n");
}

#[test]
fn tcp_bogus_is_invalid() {
    let mut storage = Storage::new("data", None).unwrap();
    assert_eq!(reply(&mut storage, "BOGUS"), "ERR invalid\n");
    assert_eq!(reply(&mut storage, ""), "ERR invalid\n");
    assert_eq!(reply(&mut storage, "GET"), "ERR invalid\n");
    assert_eq!(reply(&mut storage, "PUT a"), "ERR invalid\n");
    assert_eq!(reply(&mut storage, "GET a b"), "ERR invalid\n");
    assert_eq!(reply(&mut storage, "get a"), "ERR invalid\n");
    assert_eq!(storage.len(), 0);
}

#[test]
fn tcp_put_saves_snapshot() {
    let mut storage = Storage::new("data", None).unwrap();
    match handle_command(&mut storage, decode_request(b"PUT k v\r\n")) {
        Step::Save(t) => assert_eq!(t, "{\"k\":\"v\"}"),
        Step::Reply(t) => panic!("unexpected reply {}", t),
    }
}

#[test]
fn request_is_trimmed_and_decoded_leniently() {
    match decode_request(b"  GET key  \n") {
        Command::Get { key } => assert_eq!(key, "key"),
        _ => panic!("expected GET"),
    }
    match decode_request(b"PUT k \xffv") {
        Command::Put { key, value } => {
            assert_eq!(key, "k");
            assert_eq!(value, "\u{fffd}v");
        }
        _ => panic!("expected PUT"),
    }
}

#[test]
fn put_with_empty_key_and_extra_spaces() {
    match decode_request(b"PUT  x  y") {
        Command::Put { key, value } => {
            assert_eq!(key, "");
            assert_eq!(value, "x  y");
        }
        _ => panic!("expected PUT"),
    }
}

#[test]
fn save_failure_reply() {
    assert_eq!(save_reply(&Ok(())), "OK\n");
    assert_eq!(
        save_reply(&Err(SynkError::Storage("disk full".to_string()))),
        "ERR Storage error: disk full\n"
    );
}
