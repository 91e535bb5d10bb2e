use clipboard_sync::config::{default_config, finalize, merge, FileConfig};
use clipboard_sync::errors::ConfigError;

fn layer(
    relay: Option<&str>,
    client_key: Option<&str>,
    peers_keys: Option<Vec<&str>>,
) -> FileConfig {
    FileConfig {
        relay: relay.map(|s| s.to_string()),
        client_key: client_key.map(|s| s.to_string()),
        peers_keys: peers_keys.map(|v| v.into_iter().map(|s| s.to_string()).collect()),
    }
}

#[test]
fn defaults_give_only_a_relay() {
    let d = default_config();
    assert_eq!(d.relay, Some("130.61.88.218:5200".to_string()));
    assert_eq!(d.client_key, None);
    assert_eq!(d.peers_keys, None);
}

#[test]
fn later_layer_wins() {
    let base = layer(Some("relay-a:1"), Some("/key-a"), None);
    let over = layer(Some("relay-b:2"), None, Some(vec!["/peer-b"]));
    let m = merge(base, over);
    assert_eq!(m.relay, Some("relay-b:2".to_string()));
    assert_eq!(m.client_key, Some("/key-a".to_string()));
    assert_eq!(m.peers_keys, Some(vec!["/peer-b".to_string()]));
}

#[test]
fn precedence_defaults_file_flags() {
    let file = layer(Some("file-relay:9"), Some("/file-key"), None);
    let flags = layer(None, Some("/flag-key"), None);
    let m = merge(merge(default_config(), file), flags);
    assert_eq!(m.relay, Some("file-relay:9".to_string()));
    assert_eq!(m.client_key, Some("/flag-key".to_string()));
}

#[test]
fn missing_relay_is_reported_first() {
    let r = finalize(layer(None, None, None));
    assert_eq!(r.unwrap_err(), ConfigError::MissingRelay);
}

#[test]
fn missing_client_key_is_reported() {
    let r = finalize(layer(Some("relay:1"), None, None));
    assert_eq!(r.unwrap_err(), ConfigError::MissingClientKey);
}

#[test]
fn complete_config_resolves() {
    let r = finalize(layer(Some("relay:1"), Some("/key"), Some(vec!["/peer-one", "/peer-two"])))
        .expect("complete");
    assert_eq!(r.relay, "relay:1".to_string());
    assert_eq!(r.client_key, "/key".to_string());
    assert_eq!(r.peers_keys, vec!["/peer-one".to_string(), "/peer-two".to_string()]);
}

#[test]
fn absent_peer_keys_become_empty() {
    let r = finalize(layer(Some("relay:1"), Some("/key"), None)).expect("complete");
    assert_eq!(r.peers_keys, Vec::<String>::new());
}
