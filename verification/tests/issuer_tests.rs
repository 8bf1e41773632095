use vc_service::issuer::issuer::{create_credential, create_sd_jwt_credential, get_metadata};
use vc_service::issuer::error::IssuerError;
use vc_service::json::{JsonEntry, JsonValue};
use vc_service::models::credential::CredentialRequest;
use vc_service::models::sd_jwt::SDJWTCredentialRequest;
use vc_service::utils::key_manager::KeyPair;

fn test_keypair() -> KeyPair {
    KeyPair::from_secret(vec![7u8; 32]).unwrap()
}

fn entry(key: &str, value: JsonValue) -> JsonEntry {
    JsonEntry {
        key: key.to_string(),
        value,
    }
}

fn degree_subject() -> JsonValue {
    JsonValue::Object(vec![
        entry("id", JsonValue::Str("did:example:456".to_string())),
        entry("name", JsonValue::Str("Alice".to_string())),
        entry(
            "degree",
            JsonValue::Object(vec![
                entry("type", JsonValue::Str("BachelorDegree".to_string())),
                entry(
                    "name",
                    JsonValue::Str("Bachelor of Science in Mechanical Engineering".to_string()),
                ),
            ]),
        ),
    ])
}

fn create_test_request() -> CredentialRequest {
    CredentialRequest {
        context: vec!["https://www.w3.org/2018/credentials/v1".to_string()],
        types: vec![
            "VerifiableCredential".to_string(),
            "UniversityDegreeCredential".to_string(),
        ],
        issuer: "did:example:123".to_string(),
        issuance_date: "2023-01-01T00:00:00Z".to_string(),
        credential_subject: degree_subject(),
    }
}

#[test]
fn test_create_credential() {
    let kp = test_keypair();
    let request = create_test_request();
    let result = create_credential(request, &kp);
    assert!(
        result.is_ok(),
        "Failed to create credential: {:?}",
        result.err()
    );

    let credential = result.unwrap();
    assert_eq!(credential.issuer, "did:example:123");
    assert!(credential.proof.is_some());
}

#[test]
fn test_get_metadata() {
    let kp = test_keypair();
    let result = get_metadata(&kp);
    assert!(result.is_ok(), "Failed to get metadata: {:?}", result.err());

    let metadata = result.unwrap();
    assert_eq!(metadata.id, "did:example:123");
    assert_eq!(metadata.name, "Example University");
    assert!(metadata.public_key.public_key_multibase.starts_with('z'));
}

#[test]
fn test_create_sd_jwt_credential() {
    let kp = test_keypair();
    let request = SDJWTCredentialRequest {
        credential_subject: JsonValue::Object(vec![
            entry("given_name", JsonValue::Str("Alice".to_string())),
            entry("family_name", JsonValue::Str("Smith".to_string())),
            entry("email", JsonValue::Str("alice@example.com".to_string())),
            entry("birthdate", JsonValue::Str("1990-01-01".to_string())),
        ]),
    };

    let result = create_sd_jwt_credential(request, &kp);
    assert!(result.is_ok(), "SD-JWT creation failed: {:?}", result.err());

    let response = result.unwrap();

    assert!(response.sd_jwt.is_some(), "SD-JWT should be present");
    assert!(
        response.disclosures.is_some(),
        "Disclosures should be present"
    );

    let sd_jwt = response.sd_jwt.unwrap();
    let parts: Vec<&str> = sd_jwt.split('.').collect();
    assert_eq!(parts.len(), 3, "SD-JWT should have three parts");

    let payload = base64::Engine::decode(
        &base64::engine::general_purpose::URL_SAFE_NO_PAD,
        parts[1],
    )
    .unwrap();
    let payload: serde_json::Value = serde_json::from_slice(&payload).unwrap();

    assert!(
        payload.get("iss").is_some(),
        "Issuer claim should be present"
    );
    assert!(
        payload.get("iat").is_some(),
        "Issued At claim should be present"
    );
    assert!(
        payload.get("vct").is_some(),
        "VC Type claim should be present"
    );
    assert!(
        payload.get("_sd_alg").is_some(),
        "SD algorithm claim should be present"
    );

    // the digest map carries one entry per disclosed claim
    let sd_claims = payload.get("_sd").unwrap().as_object().unwrap();
    assert_eq!(sd_claims.len(), 2, "There should be 2 SD claims");
    assert!(sd_claims.contains_key("email"));
    assert!(sd_claims.contains_key("birthdate"));

    assert!(
        payload.get("given_name").is_some(),
        "Given name should be present in clear"
    );
    assert!(
        payload.get("family_name").is_some(),
        "Family name should be present in clear"
    );
    assert!(
        payload.get("email").is_none(),
        "Email should not be present in clear"
    );
    assert!(
        payload.get("birthdate").is_none(),
        "Birthdate should not be present in clear"
    );

    let disclosures = response.disclosures.unwrap();
    assert_eq!(disclosures.len(), 2, "There should be 2 disclosures");

    for disclosure in disclosures {
        // each disclosure is `salt.name.value`; the salt is 16 random
        // bytes in unpadded Base64url
        let salt = disclosure.split('.').next().unwrap();
        assert!(
            salt.chars()
                .all(|c| c.is_alphanumeric() || c == '-' || c == '_'),
            "Disclosure should only contain Base64 URL-safe characters"
        );
        assert_eq!(
            salt.len(),
            22,
            "Salt should be 22 characters long (16 bytes in Base64)"
        );
    }
}

#[test]
fn sd_disclosure_digests_stand_in_sd_map() {
    let kp = test_keypair();
    let request = SDJWTCredentialRequest {
        credential_subject: JsonValue::Object(vec![
            entry("given_name", JsonValue::Str("Alice".to_string())),
            entry("family_name", JsonValue::Str("Smith".to_string())),
            entry("email", JsonValue::Str("alice@example.com".to_string())),
            entry("birthdate", JsonValue::Str("1990-01-01".to_string())),
        ]),
    };
    let response = create_sd_jwt_credential(request, &kp).unwrap();
    let sd_jwt = response.sd_jwt.unwrap();
    let parts: Vec<&str> = sd_jwt.split('.').collect();
    let payload = base64::Engine::decode(
        &base64::engine::general_purpose::URL_SAFE_NO_PAD,
        parts[1],
    )
    .unwrap();
    let payload: serde_json::Value = serde_json::from_slice(&payload).unwrap();
    let sd_claims = payload.get("_sd").unwrap().as_object().unwrap();

    // recompute each disclosure's digest with sha2 + base64 directly
    for disclosure in response.disclosures.unwrap() {
        let mut hasher = <sha2::Sha256 as sha2::Digest>::new();
        sha2::Digest::update(&mut hasher, disclosure.as_bytes());
        let digest = sha2::Digest::finalize(hasher);
        let encoded = base64::Engine::encode(
            &base64::engine::general_purpose::URL_SAFE_NO_PAD,
            digest,
        );
        assert!(
            sd_claims.values().any(|v| v.as_str() == Some(encoded.as_str())),
            "digest of disclosure must appear among _sd values"
        );
    }
}

#[test]
fn issuing_without_base_type_is_invalid() {
    let kp = test_keypair();
    let mut request = create_test_request();
    // a specific type alone, without the base VerifiableCredential
    request.types = vec!["UniversityDegreeCredential".to_string()];
    let result = create_credential(request, &kp);
    assert!(matches!(result, Err(IssuerError::InvalidType(_))));
}

#[test]
fn schema_errors_name_the_field() {
    let kp = test_keypair();

    let mut request = create_test_request();
    request.credential_subject = JsonValue::Object(vec![entry(
        "name",
        JsonValue::Str("Alice".to_string()),
    )]);
    match create_credential(request, &kp) {
        Err(IssuerError::SchemaValidationError(msg)) => {
            assert_eq!(msg, "Missing required field: degree");
        }
        other => panic!("expected SchemaValidationError, got {:?}", other.err()),
    }

    let mut request = create_test_request();
    request.credential_subject = JsonValue::Object(vec![
        entry("name", JsonValue::Str("Alice".to_string())),
        entry("degree", JsonValue::Object(vec![])),
        entry("height", JsonValue::Int(180)),
    ]);
    match create_credential(request, &kp) {
        Err(IssuerError::SchemaValidationError(msg)) => {
            assert_eq!(msg, "Unknown field: height");
        }
        other => panic!("expected SchemaValidationError, got {:?}", other.err()),
    }

    let mut request = create_test_request();
    request.credential_subject = JsonValue::Object(vec![
        entry("name", JsonValue::Str("Alice".to_string())),
        entry("degree", JsonValue::Str("BSc".to_string())),
    ]);
    match create_credential(request, &kp) {
        Err(IssuerError::SchemaValidationError(msg)) => {
            assert_eq!(msg, "Invalid type for field: degree");
        }
        other => panic!("expected SchemaValidationError, got {:?}", other.err()),
    }
}

#[test]
fn issuing_without_specific_type_is_invalid() {
    let kp = test_keypair();
    let mut request = create_test_request();
    request.types = vec!["VerifiableCredential".to_string()];
    let result = create_credential(request, &kp);
    assert!(matches!(result, Err(IssuerError::InvalidType(_))));
}

#[test]
fn issuing_unknown_type_names_it() {
    let kp = test_keypair();
    let mut request = create_test_request();
    request.types = vec![
        "VerifiableCredential".to_string(),
        "MysteryCredential".to_string(),
    ];
    let result = create_credential(request, &kp);
    match result {
        Err(IssuerError::InvalidType(msg)) => {
            assert_eq!(msg, "Unsupported credential type: MysteryCredential");
            assert!(msg.contains("Unsupported credential type"));
        }
        other => panic!("expected InvalidType, got {:?}", other.err()),
    }
}

#[test]
fn issuing_with_unknown_subject_field_fails_schema() {
    let kp = test_keypair();
    let mut request = create_test_request();
    request.credential_subject = JsonValue::Object(vec![
        entry("name", JsonValue::Str("Alice".to_string())),
        entry("degree", JsonValue::Object(vec![])),
        entry("height", JsonValue::Int(180)),
    ]);
    let result = create_credential(request, &kp);
    assert!(matches!(result, Err(IssuerError::SchemaValidationError(_))));
}

#[test]
fn issuing_with_missing_required_field_fails_schema() {
    let kp = test_keypair();
    let mut request = create_test_request();
    request.credential_subject = JsonValue::Object(vec![entry(
        "name",
        JsonValue::Str("Alice".to_string()),
    )]);
    let result = create_credential(request, &kp);
    assert!(matches!(result, Err(IssuerError::SchemaValidationError(_))));
}

#[test]
fn issued_credential_id_embeds_a_uuid() {
    let kp = test_keypair();
    let credential = create_credential(create_test_request(), &kp).unwrap();
    let id = credential.id.unwrap();
    assert!(id.starts_with("http://example.edu/credentials/"));
    assert_eq!(id.len(), "http://example.edu/credentials/".len() + 36);
}

#[test]
fn proof_value_decodes_to_a_64_byte_signature() {
    let kp = test_keypair();
    let credential = create_credential(create_test_request(), &kp).unwrap();
    let proof = credential.proof.unwrap();
    match proof {
        JsonValue::Object(entries) => {
            let mut seen_type = false;
            let mut seen_value = false;
            for e in &entries {
                if e.key == "type" {
                    seen_type = true;
                    match &e.value {
                        JsonValue::Str(s) => assert_eq!(s, "Ed25519Signature2020"),
                        _ => panic!("proof type must be a string"),
                    }
                }
                if e.key == "proofValue" {
                    seen_value = true;
                    match &e.value {
                        JsonValue::Str(s) => {
                            let bytes = base58::FromBase58::from_base58(s.as_str()).unwrap();
                            assert_eq!(bytes.len(), 64);
                        }
                        _ => panic!("proofValue must be a string"),
                    }
                }
            }
            assert!(seen_type && seen_value);
        }
        _ => panic!("proof must be an object"),
    }
}
