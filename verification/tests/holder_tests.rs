use vc_service::holder::holder::Holder;
use vc_service::holder::storage::MemoryStorage;
use vc_service::json::{JsonEntry, JsonValue};
use vc_service::models::credential::{CredentialResponse, PresentationRequest};
use vc_service::utils::key_manager::KeyPair;

fn test_keypair() -> KeyPair {
    KeyPair::from_secret(vec![7u8; 32]).unwrap()
}

fn entry(key: &str, value: JsonValue) -> JsonEntry {
    JsonEntry {
        key: key.to_string(),
        value,
    }
}

fn test_credential() -> CredentialResponse {
    CredentialResponse {
        context: vec!["https://www.w3.org/2018/credentials/v1".to_string()],
        id: Some("test_id".to_string()),
        types: vec!["VerifiableCredential".to_string()],
        issuer: "did:example:123".to_string(),
        issuance_date: "2023-01-01T00:00:00Z".to_string(),
        credential_subject: JsonValue::Object(vec![
            entry("id", JsonValue::Str("did:example:456".to_string())),
            entry("name", JsonValue::Str("Alice".to_string())),
        ]),
        proof: None,
        sd_jwt: None,
        disclosures: None,
    }
}

fn setup_test_holder() -> Holder<MemoryStorage> {
    Holder::new(MemoryStorage::new())
}

#[test]
fn test_store_credential() {
    let mut holder = setup_test_holder();

    let credential = test_credential();
    let result = holder.store_credential(credential.clone());
    assert!(result.is_ok());

    let stored_credentials = holder.get_credentials().unwrap();
    assert_eq!(stored_credentials.len(), 1);
    assert_eq!(stored_credentials[0].issuer, "did:example:123");
}

#[test]
fn test_create_presentation() {
    let kp = test_keypair();
    let mut holder = setup_test_holder();

    let credential = test_credential();
    let credential_id = holder.store_credential(credential).unwrap();

    let request = PresentationRequest {
        verifiable_credential: vec![credential_id],
        challenge: "challenge".to_string(),
        domain: "example.com".to_string(),
    };

    let result = holder.create_presentation(request, &kp);
    assert!(result.is_ok());

    let presentation = result.unwrap();
    assert_eq!(presentation.verifiable_credential.len(), 1);
    assert_eq!(
        presentation.verifiable_credential[0].issuer,
        "did:example:123"
    );
}

#[test]
fn presentation_carries_domain_and_challenge() {
    let kp = test_keypair();
    let mut holder = setup_test_holder();
    let id = holder.store_credential(test_credential()).unwrap();

    let request = PresentationRequest {
        verifiable_credential: vec![id],
        challenge: "challenge".to_string(),
        domain: "example.com".to_string(),
    };
    let presentation = holder.create_presentation(request, &kp).unwrap();

    assert!(presentation
        .types
        .iter()
        .any(|t| t == "VerifiablePresentation"));
    assert_eq!(presentation.verifiable_credential.len(), 1);

    let proof = presentation.proof.as_ref().unwrap();
    let domain = proof.get("domain").unwrap();
    let challenge = proof.get("challenge").unwrap();
    match (domain, challenge) {
        (JsonValue::Str(d), JsonValue::Str(c)) => {
            assert_eq!(d, "example.com");
            assert_eq!(c, "challenge");
        }
        _ => panic!("domain and challenge must be strings"),
    }
}

#[test]
fn presentation_with_unknown_id_is_refused() {
    let kp = test_keypair();
    let holder = setup_test_holder();
    let request = PresentationRequest {
        verifiable_credential: vec!["no-such-id".to_string()],
        challenge: "challenge".to_string(),
        domain: "example.com".to_string(),
    };
    let result = holder.create_presentation(request, &kp);
    match result {
        Err(msg) => assert!(msg.contains("not found")),
        Ok(_) => panic!("missing ids must be refused"),
    }
}

#[test]
fn storing_twice_keeps_both_credentials() {
    let mut holder = setup_test_holder();
    let id1 = holder.store_credential(test_credential()).unwrap();
    let id2 = holder.store_credential(test_credential()).unwrap();
    assert_ne!(id1, id2);
    assert_eq!(holder.get_credentials().unwrap().len(), 2);
}
