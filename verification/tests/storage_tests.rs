use hash_delivery_network::cl_parser::ClArgs;
use hash_delivery_network::storage::Storage;

#[test]
fn new_store_is_empty() {
    let storage = Storage::new();
    assert_eq!(storage.size(), 0);
    assert_eq!(storage.get("abc"), None);
}

#[test]
fn put_then_get() {
    let mut storage = Storage::new();
    storage.put("abc".to_string(), "0b672dd94fd3da6a8d404b66ee3f0c83".to_string());
    assert_eq!(
        storage.get("abc"),
        Some("0b672dd94fd3da6a8d404b66ee3f0c83".to_string())
    );
    assert_eq!(storage.get("ab"), None);
    assert_eq!(storage.size(), 1);
}

#[test]
fn put_replaces() {
    let mut storage = Storage::new();
    storage.put("k".to_string(), "h1".to_string());
    storage.put("k".to_string(), "h2".to_string());
    assert_eq!(storage.get("k"), Some("h2".to_string()));
    assert_eq!(storage.size(), 1);
}

#[test]
fn put_leaves_other_keys_alone() {
    let mut storage = Storage::new();
    storage.put("k1".to_string(), "h1".to_string());
    storage.put("k2".to_string(), "h2".to_string());
    storage.put("".to_string(), "h3".to_string());
    assert_eq!(storage.get("k1"), Some("h1".to_string()));
    assert_eq!(storage.get("k2"), Some("h2".to_string()));
    assert_eq!(storage.get(""), Some("h3".to_string()));
    assert_eq!(storage.size(), 3);
}

#[test]
fn default_configuration_is_loopback_and_any_port() {
    let args = ClArgs::default();
    assert_eq!(args.ip(), "127.0.0.1");
    assert_eq!(args.port(), 0);
}

#[test]
fn configuration_keeps_what_it_was_given() {
    let args = ClArgs::new("::1".to_string(), 8080);
    assert_eq!(args.ip(), "::1");
    assert_eq!(args.port(), 8080);
}
