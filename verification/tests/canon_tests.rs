use vc_service::canon::{canon_value, to_canonical_string};
use vc_service::json::{JsonEntry, JsonValue};
use vc_service::utils::sd_jwt::{create_disclosure, create_salt, hash_disclosure};

fn entry(key: &str, value: JsonValue) -> JsonEntry {
    JsonEntry {
        key: key.to_string(),
        value,
    }
}

#[test]
fn canonical_form_sorts_keys_at_every_level() {
    let v = JsonValue::Object(vec![
        entry(
            "b",
            JsonValue::Object(vec![
                entry("d", JsonValue::Bool(true)),
                entry("c", JsonValue::Null),
            ]),
        ),
        entry("a", JsonValue::Int(1)),
    ]);
    let s = to_canonical_string(&v);
    assert_eq!(s, "{\"a\":1,\"b\":{\"c\":null,\"d\":true}}");
}

#[test]
fn canonicalization_is_idempotent() {
    let v = JsonValue::Object(vec![
        entry("z", JsonValue::Array(vec![JsonValue::Int(3), JsonValue::Int(1)])),
        entry("a", JsonValue::Str("x".to_string())),
        entry(
            "m",
            JsonValue::Object(vec![
                entry("q", JsonValue::Int(-5)),
                entry("p", JsonValue::Bool(false)),
            ]),
        ),
    ]);
    let once = canon_value(&v);
    let twice = canon_value(&once);
    assert_eq!(to_canonical_string(&once), to_canonical_string(&twice));
    assert_eq!(to_canonical_string(&v), to_canonical_string(&once));
}

#[test]
fn key_order_does_not_change_the_canonical_string() {
    let v1 = JsonValue::Object(vec![
        entry("name", JsonValue::Str("Alice".to_string())),
        entry("id", JsonValue::Str("did:example:456".to_string())),
    ]);
    let v2 = JsonValue::Object(vec![
        entry("id", JsonValue::Str("did:example:456".to_string())),
        entry("name", JsonValue::Str("Alice".to_string())),
    ]);
    assert_eq!(to_canonical_string(&v1), to_canonical_string(&v2));
}

#[test]
fn strings_are_escaped_like_json() {
    let v = JsonValue::Object(vec![entry(
        "text",
        JsonValue::Str("a\"b\\c\nd".to_string()),
    )]);
    let s = to_canonical_string(&v);
    assert_eq!(s, "{\"text\":\"a\\\"b\\\\c\\u000ad\"}");
    // what this library writes, serde_json reads back unchanged
    let parsed: serde_json::Value = serde_json::from_str(&s).unwrap();
    assert_eq!(parsed["text"].as_str().unwrap(), "a\"b\\c\nd");
}

#[test]
fn negative_and_large_integers_serialize_exactly() {
    let v = JsonValue::Array(vec![
        JsonValue::Int(0),
        JsonValue::Int(-1),
        JsonValue::Int(i64::MAX),
        JsonValue::Int(i64::MIN),
    ]);
    let s = to_canonical_string(&v);
    assert_eq!(s, "[0,-1,9223372036854775807,-9223372036854775808]");
}

#[test]
fn salts_are_22_base64url_characters() {
    for _ in 0..8 {
        let salt = create_salt();
        assert_eq!(salt.len(), 22);
        assert!(salt
            .chars()
            .all(|c| c.is_ascii_alphanumeric() || c == '-' || c == '_'));
    }
}

#[test]
fn two_salts_differ() {
    // 16 random bytes colliding twice in a row would be astonishing
    let a = create_salt();
    let b = create_salt();
    assert_ne!(a, b);
}

#[test]
fn disclosure_string_and_digest_match_their_definitions() {
    let value = JsonValue::Str("alice@example.com".to_string());
    let disclosure = create_disclosure("SALTSALTSALTSALTSALTSA", "email", &value);
    assert_eq!(disclosure, "SALTSALTSALTSALTSALTSA.email.alice@example.com");

    let digest = hash_disclosure(&disclosure);
    let mut hasher = <sha2::Sha256 as sha2::Digest>::new();
    sha2::Digest::update(&mut hasher, disclosure.as_bytes());
    let expected = base64::Engine::encode(
        &base64::engine::general_purpose::URL_SAFE_NO_PAD,
        sha2::Digest::finalize(hasher),
    );
    assert_eq!(digest, expected);
}

#[test]
fn non_string_claims_disclose_their_json_text() {
    let value = JsonValue::Int(42);
    let disclosure = create_disclosure("SALTSALTSALTSALTSALTSA", "age", &value);
    assert_eq!(disclosure, "SALTSALTSALTSALTSALTSA.age.42");
}
