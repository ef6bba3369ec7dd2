use synknodes::api::{data_status, status_of, store_status};
use synknodes::config::{parse_peers, DEFAULT_HTTP_PORT, DEFAULT_TCP_PORT};
use synknodes::crypto::{generate_node_id, hash_data, node_id_from_seed};
use synknodes::{Config, Storage, SynkError, SynkNode};

#[test]
fn error_messages() {
    assert_eq!(SynkError::Storage("a".to_string()).message(), "Storage error: a");
    assert_eq!(SynkError::Network("b".to_string()).message(), "Network error: b");
    assert_eq!(SynkError::Config("c".to_string()).message(), "Configuration error: c");
    assert_eq!(SynkError::Serialization("d".to_string()).message(), "Serialization error: d");
    assert_eq!(SynkError::Io("e".to_string()).message(), "IO error: e");
}

#[test]
fn config_defaults() {
    let c = Config::from_values(None, None, None, None, None, None);
    assert_eq!(c.node_id.len(), 36);
    assert_eq!(c.host, "127.0.0.1");
    assert_eq!(c.tcp_port, 7000);
    assert_eq!(c.http_port, 8080);
    assert_eq!(DEFAULT_TCP_PORT, 7000);
    assert_eq!(DEFAULT_HTTP_PORT, 8080);
    assert_eq!(c.data_dir, "./data");
    assert!(c.peers.is_empty());
}

#[test]
fn config_given_values() {
    let c = Config::from_values(
        Some("n1".to_string()),
        Some("0.0.0.0".to_string()),
        Some("+7100".to_string()),
        Some("9090".to_string()),
        Some("/srv/d".to_string()),
        Some(" a:1 ,, b:2,".to_string()),
    );
    assert_eq!(c.node_id, "n1");
    assert_eq!(c.host, "0.0.0.0");
    assert_eq!(c.tcp_port, 7100);
    assert_eq!(c.http_port, 9090);
    assert_eq!(c.data_dir, "/srv/d");
    assert_eq!(c.peers, vec!["a:1".to_string(), "b:2".to_string()]);
}

#[test]
fn config_bad_ports_fall_back() {
    let c = Config::from_values(None, None, Some("70000".to_string()), Some("-1".to_string()), None, None);
    assert_eq!(c.tcp_port, 7000);
    assert_eq!(c.http_port, 8080);
    let c = Config::from_values(None, None, Some("".to_string()), Some("80x".to_string()), None, None);
    assert_eq!(c.tcp_port, 7000);
    assert_eq!(c.http_port, 8080);
    let c = Config::from_values(None, None, Some("65535".to_string()), Some("0".to_string()), None, None);
    assert_eq!(c.tcp_port, 65535);
    assert_eq!(c.http_port, 0);
}

#[test]
fn peers_parsing() {
    assert!(parse_peers("").is_empty());
    assert!(parse_peers(" , ,").is_empty());
    assert_eq!(parse_peers("h1"), vec!["h1".to_string()]);
    assert_eq!(parse_peers("h1, h2 ,h3"), vec!["h1", "h2", "h3"]);
}

#[test]
fn hash_of_known_inputs() {
    assert_eq!(
        hash_data(""),
        "e3b0c44298fc1c149afbf4c8996fb92427ae41e4649b934ca495991b7852b855"
    );
    assert_eq!(
        hash_data("abc"),
        "ba7816bf8f01cfea414140de5dae2223b00361a396177a9cb410ff61f20015ad"
    );
}

#[test]
fn node_ids_from_seeds() {
    let a = node_id_from_seed(0);
    assert_eq!(a.len(), 64);
    assert_eq!(a, hash_data_of_bytes(&[0u8; 16]));
    assert_ne!(node_id_from_seed(1), a);
    assert_eq!(generate_node_id().len(), 64);
}

fn hash_data_of_bytes(b: &[u8]) -> String {
    let text: String = b.iter().map(|&x| x as char).collect();
    hash_data(&text)
}

#[test]
fn http_status_codes() {
    assert_eq!(data_status(&Some("1".to_string())), 200);
    assert_eq!(data_status(&None), 404);
    assert_eq!(store_status(&Ok(())), 201);
    assert_eq!(store_status(&Err(SynkError::Storage("x".to_string()))), 500);
}

#[test]
fn http_store_then_get() {
    let cfg = Config::from_values(Some("n".to_string()), None, None, None, None, None);
    let mut node = SynkNode::new(cfg, Storage::new("data", None).unwrap());
    let saved = node.storage.set("a".to_string(), "1".to_string()).map(|_| ());
    assert_eq!(store_status(&saved), 201);
    let v = node.storage.get("a");
    assert_eq!(data_status(&v), 200);
    assert_eq!(v, Some("1".to_string()));
    assert_eq!(data_status(&node.storage.get("missing")), 404);
    let st = status_of(&node);
    assert_eq!(st.node_id, "n");
    assert_eq!(st.tcp_port, 7000);
    assert_eq!(st.http_port, 8080);
    assert_eq!(st.keys, vec!["a".to_string()]);
}

#[test]
fn config_with_drawn_id() {
    let id = "0f8fad5b-d9cb-469f-a165-70867728950e".to_string();
    let c = Config::with_node_id(id.clone(), None, Some("7001".to_string()), None, None, Some("p".to_string()));
    assert_eq!(c.node_id, id);
    assert_eq!(c.tcp_port, 7001);
    assert_eq!(c.http_port, 8080);
    assert_eq!(c.peers, vec!["p".to_string()]);
}

#[test]
fn hashes_are_lowercase_hex() {
    for h in [hash_data("key"), node_id_from_seed(u128::MAX), generate_node_id()] {
        assert_eq!(h.len(), 64);
        assert!(h.chars().all(|c| c.is_ascii_digit() || ('a'..='f').contains(&c)));
    }
}
