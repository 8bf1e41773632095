use vc_service::issuer::issuer::create_sd_jwt_credential;
use vc_service::json::{JsonEntry, JsonValue};
use vc_service::models::credential::{CredentialResponse, VerifiablePresentation};
use vc_service::models::sd_jwt::SDJWTCredentialRequest;
use vc_service::utils::crypto::sign_json;
use vc_service::utils::key_manager::KeyPair;
use vc_service::vc_verifier::error::VerifierError;
use vc_service::vc_verifier::verify::{verify_credential, verify_presentation};

fn test_keypair() -> KeyPair {
    KeyPair::from_secret(vec![7u8; 32]).unwrap()
}

fn entry(key: &str, value: JsonValue) -> JsonEntry {
    JsonEntry {
        key: key.to_string(),
        value,
    }
}

fn subject(name: &str) -> JsonValue {
    JsonValue::Object(vec![
        entry(
            "id",
            JsonValue::Str("did:example:ebfeb1f712ebc6f1c276e12ec21".to_string()),
        ),
        entry("name", JsonValue::Str(name.to_string())),
        entry(
            "degree",
            JsonValue::Object(vec![
                entry("type", JsonValue::Str("BachelorDegree".to_string())),
                entry(
                    "name",
                    JsonValue::Str("Bachelor of Science in Mechanical Engineering".to_string()),
                ),
            ]),
        ),
    ])
}

fn create_test_credential(kp: &KeyPair) -> CredentialResponse {
    let mut credential = CredentialResponse {
        context: vec!["https://www.w3.org/2018/credentials/v1".to_string()],
        id: Some("http://example.edu/credentials/3732".to_string()),
        types: vec![
            "VerifiableCredential".to_string(),
            "UniversityDegreeCredential".to_string(),
        ],
        issuer: "did:example:123".to_string(),
        issuance_date: "2023-01-01T00:00:00Z".to_string(),
        credential_subject: subject("Alice"),
        proof: None,
        sd_jwt: None,
        disclosures: None,
    };

    let credential_json = credential.to_json();
    let proof = sign_json(&credential_json, kp).unwrap();
    credential.proof = Some(proof);
    credential
}

fn create_test_sd_jwt_credential(kp: &KeyPair) -> CredentialResponse {
    let request = SDJWTCredentialRequest {
        credential_subject: JsonValue::Object(vec![
            entry("given_name", JsonValue::Str("Alice".to_string())),
            entry("family_name", JsonValue::Str("Smith".to_string())),
            entry("email", JsonValue::Str("alice@example.com".to_string())),
            entry("birthdate", JsonValue::Str("1990-01-01".to_string())),
        ]),
    };
    create_sd_jwt_credential(request, kp).unwrap()
}

#[test]
fn test_verify_credential() {
    let kp = test_keypair();

    let credential = create_test_credential(&kp);
    let result = verify_credential(&credential, &kp.public);
    assert!(
        result.is_ok(),
        "Standard Credential Verification failed: {:?}",
        result.err()
    );
    assert!(result.unwrap());

    let sd_jwt_credential = create_test_sd_jwt_credential(&kp);
    let result = verify_credential(&sd_jwt_credential, &kp.public);
    assert!(
        result.is_ok(),
        "SD-JWT Credential Verification failed: {:?}",
        result.err()
    );
    assert!(result.unwrap());
}

#[test]
fn test_verify_presentation() {
    let kp = test_keypair();
    let credential = create_test_credential(&kp);
    let mut presentation = VerifiablePresentation {
        context: vec!["https://www.w3.org/2018/credentials/v1".to_string()],
        types: vec!["VerifiablePresentation".to_string()],
        verifiable_credential: vec![credential],
        proof: None,
    };

    let presentation_json = presentation.to_json();
    let proof = sign_json(&presentation_json, &kp).unwrap();
    presentation.proof = Some(proof);

    let result = verify_presentation(&presentation, &kp.public);
    assert!(result.is_ok(), "Verification failed: {:?}", result.err());
    assert!(result.unwrap());
}

#[test]
fn tampered_credential_is_refused() {
    let kp = test_keypair();
    let mut credential = create_test_credential(&kp);
    // change "Alice" to "Bob" after signing
    credential.credential_subject = subject("Bob");
    let result = verify_credential(&credential, &kp.public);
    assert!(result.is_err(), "a tampered credential must not verify");
    assert!(matches!(
        result,
        Err(VerifierError::SignatureVerificationFailed(_))
    ));
}

#[test]
fn credential_without_proof_is_refused() {
    let kp = test_keypair();
    let mut credential = create_test_credential(&kp);
    credential.proof = None;
    let result = verify_credential(&credential, &kp.public);
    assert!(matches!(result, Err(VerifierError::MissingProof)));
}

#[test]
fn sd_jwt_with_wrong_segment_count_is_refused() {
    let kp = test_keypair();
    let mut credential = create_test_credential(&kp);

    credential.sd_jwt = Some("one.two".to_string());
    let result = verify_credential(&credential, &kp.public);
    assert!(matches!(
        result,
        Err(VerifierError::InvalidCredentialFormat)
    ));

    credential.sd_jwt = Some("a.b.c.d".to_string());
    let result = verify_credential(&credential, &kp.public);
    assert!(matches!(
        result,
        Err(VerifierError::InvalidCredentialFormat)
    ));
}

#[test]
fn tampered_disclosure_is_refused() {
    let kp = test_keypair();
    let mut credential = create_test_sd_jwt_credential(&kp);

    // replace one disclosure with a string whose digest the _sd map
    // does not commit
    let mut disclosures = credential.disclosures.clone().unwrap();
    disclosures[0] = "SALTSALTSALTSALTSALTSA.email.mallory@example.com".to_string();
    credential.disclosures = Some(disclosures);

    let result = verify_credential(&credential, &kp.public);
    assert!(matches!(
        result,
        Err(VerifierError::SignatureVerificationFailed(_))
    ));
}

#[test]
fn overlong_proof_value_is_refused_not_fatal() {
    let kp = test_keypair();
    let mut credential = create_test_credential(&kp);
    // 133 leading-zero digits: beyond the Base58 decoder's range
    credential.proof = Some(JsonValue::Object(vec![entry(
        "proofValue",
        JsonValue::Str("1".repeat(133)),
    )]));
    let result = verify_credential(&credential, &kp.public);
    assert!(matches!(
        result,
        Err(VerifierError::SignatureVerificationFailed(_))
    ));
}

#[test]
fn presentation_failure_names_the_credential_index() {
    let kp = test_keypair();
    let good = create_test_credential(&kp);
    // a credential whose own proof no longer matches its content; the
    // presentation is signed over it as it stands, so the presentation
    // signature holds while the embedded credential fails
    let mut bad = create_test_credential(&kp);
    bad.credential_subject = subject("Mallory");
    let mut presentation = VerifiablePresentation {
        context: vec!["https://www.w3.org/2018/credentials/v1".to_string()],
        types: vec!["VerifiablePresentation".to_string()],
        verifiable_credential: vec![good, bad],
        proof: None,
    };
    let presentation_json = presentation.to_json();
    let proof = sign_json(&presentation_json, &kp).unwrap();
    presentation.proof = Some(proof);

    match verify_presentation(&presentation, &kp.public) {
        Err(VerifierError::SignatureVerificationFailed(msg)) => {
            assert_eq!(msg, "Credential 1 failed verification");
        }
        other => panic!("expected an indexed failure, got {:?}", other),
    }
}

#[test]
fn verifying_under_another_key_fails() {
    let kp = test_keypair();
    let other = KeyPair::from_secret(vec![9u8; 32]).unwrap();
    let credential = create_test_credential(&kp);
    let result = verify_credential(&credential, &other.public);
    assert!(result.is_err());
}

#[test]
fn presentation_with_tampered_member_is_refused() {
    let kp = test_keypair();
    let credential = create_test_credential(&kp);
    let mut presentation = VerifiablePresentation {
        context: vec!["https://www.w3.org/2018/credentials/v1".to_string()],
        types: vec!["VerifiablePresentation".to_string()],
        verifiable_credential: vec![credential],
        proof: None,
    };
    let presentation_json = presentation.to_json();
    let proof = sign_json(&presentation_json, &kp).unwrap();
    presentation.proof = Some(proof);

    // break the embedded credential's own proof after the presentation
    // was signed: the presentation signature covers the embedded
    // credential, so the whole presentation is refused
    presentation.verifiable_credential[0].credential_subject = subject("Mallory");
    let result = verify_presentation(&presentation, &kp.public);
    assert!(result.is_err());
}
