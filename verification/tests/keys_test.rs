use rs_tg_nostr::keys::{keys_from_parse, KeyPair, KeyStore};
use nostr_sdk::ToBech32;

#[test]
fn test_generate_when_no_file() {
    let mut file = None;
    let store = load_or_generate_in(&mut file);
    let pair = store.key_pair();

    assert!(pair.npub.starts_with("npub1"), "npub should start with npub1");
    assert!(pair.nsec.starts_with("nsec1"), "nsec should start with nsec1");
    assert!(file.is_some(), "key.json should be written");
    assert_eq!(store.path(), "key.json");
}

#[test]
fn test_load_existing_file() {
    let mut file = None;

    let store1 = load_or_generate_in(&mut file);
    let npub1 = store1.key_pair().npub.clone();

    let store2 = load_or_generate_in(&mut file);
    let npub2 = store2.key_pair().npub.clone();

    assert_eq!(npub1, npub2, "same key should be returned on reload");
}

#[test]
fn stored_pair_is_kept_as_is() {
    let pair = KeyPair { npub: "npub1abc".to_string(), nsec: "nsec1def".to_string() };
    let store = KeyStore::load_or_generate("key.json", Some(pair));
    let kept = store.key_pair();
    assert_eq!(kept.npub, "npub1abc");
    assert_eq!(kept.nsec, "nsec1def");
}

#[test]
fn generated_secret_key_parses_back() {
    let store = KeyStore::load_or_generate("key.json", None);
    let keys = store.nostr_keys().unwrap();
    assert_eq!(keys.public_key().to_bech32().unwrap(), store.key_pair().npub);
}

#[test]
fn invalid_secret_key_is_a_nostr_error() {
    let pair = KeyPair { npub: "npub1abc".to_string(), nsec: "nsec1def".to_string() };
    let store = KeyStore::load_or_generate("key.json", Some(pair));
    let err = store.nostr_keys().unwrap_err();
    assert!(err.to_string().starts_with("nostr error: parse nsec failed: "));
}

#[test]
fn two_generated_pairs_differ() {
    let a = KeyStore::load_or_generate("a.json", None).key_pair();
    let b = KeyStore::load_or_generate("b.json", None).key_pair();
    assert_ne!(a.nsec, b.nsec);
}

#[test]
fn generated_pair_parses_back_to_same_texts() {
    let store = KeyStore::load_or_generate("key.json", None);
    let pair = store.key_pair();
    let keys = store.nostr_keys().unwrap();
    assert_eq!(keys.public_key().to_bech32().unwrap(), pair.npub);
    assert_eq!(keys.secret_key().to_bech32().unwrap(), pair.nsec);
    let again = store.nostr_keys().unwrap();
    assert_eq!(again.public_key(), keys.public_key());
}

#[test]
fn keys_from_parse_outcomes() {
    let keys = nostr_sdk::Keys::generate();
    assert_eq!(keys_from_parse(Ok(keys.clone())).unwrap().public_key(), keys.public_key());
    let err = nostr_sdk::Keys::parse("bad").unwrap_err();
    let expected = format!("nostr error: parse nsec failed: {}", err);
    assert_eq!(keys_from_parse(Err(err)).unwrap_err().to_string(), expected);
}

/// A key file as text: the `{"npub": ..., "nsec": ...}` JSON object.
fn key_file_text(pair: &KeyPair) -> String {
    let mut obj = serde_json::Map::new();
    obj.insert("npub".to_string(), serde_json::Value::String(pair.npub.clone()));
    obj.insert("nsec".to_string(), serde_json::Value::String(pair.nsec.clone()));
    serde_json::to_string_pretty(&serde_json::Value::Object(obj)).unwrap()
}

/// The pair a key file text holds.
fn pair_of_key_file(raw: &str) -> KeyPair {
    let v: serde_json::Value = serde_json::from_str(raw).unwrap();
    KeyPair {
        npub: v["npub"].as_str().unwrap().to_string(),
        nsec: v["nsec"].as_str().unwrap().to_string(),
    }
}

/// Loads from `file` (the key file's text, `None` where there is none), and
/// stores a generated pair there.
fn load_or_generate_in(file: &mut Option<String>) -> KeyStore {
    let stored = file.as_deref().map(pair_of_key_file);
    let generated = stored.is_none();
    let store = KeyStore::load_or_generate("key.json", stored);
    if generated {
        *file = Some(key_file_text(&store.key_pair()));
    }
    store
}

#[test]
fn test_python_compat_json_format() {
    let mut file = None;
    load_or_generate_in(&mut file);

    let raw = file.unwrap();
    let v: serde_json::Value = serde_json::from_str(&raw).unwrap();

    assert!(v["npub"].is_string(), "npub field must be a JSON string");
    assert!(v["nsec"].is_string(), "nsec field must be a JSON string");
    assert!(v.get("extra").is_none());
}

#[test]
fn test_atomic_write_no_corruption() {
    let mut file = None;
    let first = load_or_generate_in(&mut file).key_pair();
    for _ in 0..5 {
        let again = load_or_generate_in(&mut file).key_pair();
        assert_eq!(again.npub, first.npub);
        assert_eq!(again.nsec, first.nsec);
    }

    let raw = file.unwrap();
    assert!(serde_json::from_str::<serde_json::Value>(&raw).is_ok());
}
