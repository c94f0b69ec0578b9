use hoos_hungry::cache::ResultCache;
use hoos_hungry::fingerprint::key_for;

use sha2::Digest;

#[test]
fn key_matches_the_namespaced_sha256_hex() {
    let query = "recommend";
    let variables = "{\"hall\":1}";
    let mut hasher = sha2::Sha256::new();
    hasher.update(query.as_bytes());
    hasher.update(b"|");
    hasher.update(variables.as_bytes());
    let expected = format!("gql:{}", hex::encode(hasher.finalize()));
    assert_eq!(key_for(query, variables), expected);
}

#[test]
fn key_is_deterministic_across_calls() {
    let a = key_for("listLocations", "{\"q\":\"cafe\"}");
    let b = key_for("listLocations", "{\"q\":\"cafe\"}");
    assert_eq!(a, b);
    assert_eq!(a.len(), 68);
    assert!(a.starts_with("gql:"));
}

#[test]
fn changing_either_input_changes_the_key() {
    let base = key_for("recommend", "{\"hall\":1}");
    assert_ne!(base, key_for("recommend", "{\"hall\":2}"));
    assert_ne!(base, key_for("listLocations", "{\"hall\":1}"));
}

#[test]
fn cache_round_trip_before_expiry() {
    let mut cache = ResultCache::new();
    let key = "gql:abc".to_string();
    let payload = "[{\"id\":1}]".to_string();
    cache.set_ex(&key, &payload, 60, 100);
    assert_eq!(cache.get(&key, 100), Some(payload.clone()));
    assert_eq!(cache.get(&key, 159), Some(payload));
}

#[test]
fn cache_entry_expires_at_ttl() {
    let mut cache = ResultCache::new();
    let key = "gql:abc".to_string();
    cache.set_ex(&key, &"payload".to_string(), 60, 100);
    assert_eq!(cache.get(&key, 160), None);
    assert_eq!(cache.get(&key, 200), None);
}

#[test]
fn cache_miss_on_unknown_key() {
    let mut cache = ResultCache::new();
    cache.set_ex(&"gql:abc".to_string(), &"payload".to_string(), 60, 100);
    assert_eq!(cache.get(&"gql:def".to_string(), 100), None);
}

#[test]
fn cache_set_replaces_the_previous_entry() {
    let mut cache = ResultCache::new();
    let key = "gql:abc".to_string();
    cache.set_ex(&key, &"first".to_string(), 1000, 100);
    cache.set_ex(&key, &"second".to_string(), 10, 200);
    assert_eq!(cache.get(&key, 205), Some("second".to_string()));
    // the old, longer TTL no longer applies
    assert_eq!(cache.get(&key, 210), None);
}

#[test]
fn cache_keeps_other_keys_untouched() {
    let mut cache = ResultCache::new();
    let a = "gql:a".to_string();
    let b = "gql:b".to_string();
    cache.set_ex(&a, &"pa".to_string(), 60, 100);
    cache.set_ex(&b, &"pb".to_string(), 60, 100);
    cache.set_ex(&a, &"pa2".to_string(), 60, 120);
    assert_eq!(cache.get(&b, 130), Some("pb".to_string()));
}
