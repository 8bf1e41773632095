//! End-to-end verification of credentials and presentations: embedded
//! proofs are checked against the canonical serialization, SD-JWTs are
//! split, decoded and checked for their claim marker before their
//! signature is verified.

use vstd::prelude::*;
use crate::models::credential::{CredentialResponse, CredentialModel, VerifiablePresentation,
    PresentationModel};
use crate::utils::crypto::{verify_vc, verify_sd_jwt, vc_signature_good, sd_jwt_signature_good,
    sd_jwt_shape_ok};
use crate::utils::sd_jwt::{hash_disclosure, disclosure_digest};
use crate::vc_verifier::error::VerifierError;
use crate::encoding::base64url_decode_of;
use crate::strutil::dot_split;

verus! {

/// What serde_json's parser answers about a payload: nothing when the
/// bytes are not JSON, else whether the top-level value carries `key`.
pub uninterp spec fn json_top_level_key(bytes: Seq<u8>, key: Seq<char>) -> Option<bool>;

/// Relies on serde_json's `from_slice` and `Value::get`: `None` when
/// the bytes are not valid JSON, otherwise whether the parsed value
/// holds `key` at top level. The answer is a function of the bytes and
/// the key alone.
#[verifier::external_body]
fn json_has_top_key(bytes: &[u8], key: &str) -> (r: Option<bool>)
    ensures
        r == json_top_level_key(bytes@, key@),
{
    match serde_json::from_slice::<serde_json::Value>(bytes) {
        Ok(v) => Some(v.get(key).is_some()),
        Err(_) => None,
    }
}

/// What serde_json's parser answers about the `_sd` map of a payload:
/// nothing when the bytes are not JSON; otherwise whether `digest`
/// stands among the values of the top-level `_sd` object (false when
/// `_sd` is absent or not an object).
pub uninterp spec fn json_sd_digest(bytes: Seq<u8>, digest: Seq<char>) -> Option<bool>;

/// Relies on serde_json's `from_slice`, `Value::get` and the map's
/// value iterator: `None` when the bytes are not valid JSON, otherwise
/// whether some value of the top-level `_sd` object is the string
/// `digest`. The answer is a function of the bytes and the digest
/// alone.
#[verifier::external_body]
fn json_sd_has_digest(bytes: &[u8], digest: &str) -> (r: Option<bool>)
    ensures
        r == json_sd_digest(bytes@, digest@),
{
    match serde_json::from_slice::<serde_json::Value>(bytes) {
        Ok(v) => match v.get("_sd") {
            Some(serde_json::Value::Object(map)) => Some(
                map.values().any(|d| d.as_str() == Some(digest)),
            ),
            _ => Some(false),
        },
        Err(_) => None,
    }
}

/// Every attached disclosure's digest stands among the `_sd` values of
/// the decoded payload.
pub open spec fn sd_digests_ok(payload: Seq<u8>, discs: Seq<Seq<char>>) -> bool {
    forall|i: int|
        0 <= i < discs.len() ==> json_sd_digest(payload, disclosure_digest(#[trigger] discs[i]))
            == Some(true)
}

/// What it takes for an SD-JWT to pass verification: shape, a JSON
/// payload carrying `_sd_alg` whose `_sd` map commits every attached
/// disclosure, and a valid signature.
pub open spec fn sd_credential_verifies(
    pk: Seq<u8>,
    jwt: Seq<char>,
    discs: Option<Seq<Seq<char>>>,
) -> bool {
    &&& sd_jwt_shape_ok(jwt)
    &&& match base64url_decode_of(dot_split(jwt)[1]) {
        Some(payload) => {
            &&& json_top_level_key(payload, ("_sd_alg")@) == Some(true)
            &&& match discs {
                Some(ds) => sd_digests_ok(payload, ds),
                None => true,
            }
        },
        None => false,
    }
    &&& sd_jwt_signature_good(pk, jwt)
}

/// What it takes for a credential to pass verification under `pk`.
pub open spec fn credential_verifies(pk: Seq<u8>, c: CredentialModel) -> bool {
    match c.sd_jwt {
        Some(jwt) => sd_credential_verifies(pk, jwt, c.disclosures),
        None => match c.proof {
            Some(p) => vc_signature_good(pk, c.without_proof().spec_json(), p),
            None => false,
        },
    }
}

/// What it takes for a presentation to pass verification under `pk`:
/// its own signature, and every embedded credential.
pub open spec fn presentation_verifies(pk: Seq<u8>, p: PresentationModel) -> bool {
    &&& match p.proof {
        Some(pr) => vc_signature_good(pk, p.without_proof().spec_json(), pr),
        None => false,
    }
    &&& forall|i: int|
        0 <= i < p.verifiable_credential.len() ==> credential_verifies(
            pk,
            #[trigger] p.verifiable_credential[i],
        )
}

/// Whether this verifier trusts the issuer. The default build trusts
/// every issuer; deployments plug their own registry in at the
/// transport layer.
pub fn is_trusted_issuer(issuer: &str) -> (r: bool)
    ensures
        r == true,
{
    true
}

/// Check a credential that carries an embedded proof.
fn verify_vc_credential(credential: &CredentialResponse, public: &[u8]) -> (r: Result<
    bool,
    VerifierError,
>)
    requires
        public@.len() == 32,
    ensures
        r is Ok <==> (match credential@.proof {
            Some(p) => vc_signature_good(public@, credential@.without_proof().spec_json(), p),
            None => false,
        }),
        r is Ok ==> r == Ok::<bool, VerifierError>(true),
        credential@.proof is None <==> r matches Err(VerifierError::MissingProof),
        (credential@.proof is Some && r is Err) ==> r matches Err(
            VerifierError::SignatureVerificationFailed(_),
        ),
{
    let credential_without_proof = credential.without_proof();
    let json = credential_without_proof.to_json();
    let proof_ref = &credential.proof;
    let proof_obj = match proof_ref {
        Some(p) => p,
        None => {
            return Err(VerifierError::MissingProof);
        },
    };
    match verify_vc(&json, proof_obj, public) {
        Ok(_) => {},
        Err(_) => {
            return Err(
                VerifierError::SignatureVerificationFailed(
                    String::from_str("Signature verification failed"),
                ),
            );
        },
    }
    if !is_trusted_issuer(credential.issuer.as_str()) {
        return Err(VerifierError::UntrustedIssuer);
    }
    Ok(true)
}

/// Check a compact SD-JWT: shape, payload, marker, the digests of the
/// attached disclosures, and the signature.
#[verifier::loop_isolation(false)]
fn verify_sd_jwt_credential(
    sd_jwt: &str,
    disclosures: &Option<Vec<String>>,
    public: &[u8],
) -> (r: Result<bool, VerifierError>)
    requires
        public@.len() == 32,
    ensures
        r is Ok <==> sd_credential_verifies(
            public@,
            sd_jwt@,
            match disclosures {
                Some(d) => Some(d.deep_view()),
                None => None,
            },
        ),
        r is Ok ==> r == Ok::<bool, VerifierError>(true),
        !sd_jwt_shape_ok(sd_jwt@) <==> r matches Err(VerifierError::InvalidCredentialFormat),
        sd_jwt_shape_ok(sd_jwt@) ==> match base64url_decode_of(dot_split(sd_jwt@)[1]) {
            None => r matches Err(VerifierError::InvalidBase64Encoding),
            Some(payload) => match json_top_level_key(payload, ("_sd_alg")@) {
                None => r matches Err(VerifierError::InvalidJsonPayload),
                Some(false) => r matches Err(VerifierError::MissingSdAlgClaim),
                Some(true) => r is Err ==> (r matches Err(
                    VerifierError::SignatureVerificationFailed(_),
                ) || r matches Err(VerifierError::InvalidJsonPayload)),
            },
        },
{
    let parts = crate::strutil::split_dots(sd_jwt);
    if parts.len() != 3 {
        return Err(VerifierError::InvalidCredentialFormat);
    }
    proof {
        assert(parts@[0]@ == dot_split(sd_jwt@)[0]);
        assert(parts@[1]@ == dot_split(sd_jwt@)[1]);
        assert(parts@[2]@ == dot_split(sd_jwt@)[2]);
    }
    if parts[0].as_str().is_empty() || parts[1].as_str().is_empty() || parts[2].as_str().is_empty()
    {
        return Err(VerifierError::InvalidCredentialFormat);
    }
    let payload_bytes = match crate::encoding::b64url_decode(parts[1].as_str()) {
        Some(b) => b,
        None => {
            return Err(VerifierError::InvalidBase64Encoding);
        },
    };
    match json_has_top_key(payload_bytes.as_slice(), "_sd_alg") {
        None => {
            return Err(VerifierError::InvalidJsonPayload);
        },
        Some(false) => {
            return Err(VerifierError::MissingSdAlgClaim);
        },
        Some(true) => {},
    }
    match disclosures {
        Some(ds) => {
            let nd = ds.len();
            let mut k: usize = 0;
            while k < nd
                invariant
                    k <= nd,
                    forall|j: int|
                        0 <= j < k ==> json_sd_digest(
                            payload_bytes@,
                            disclosure_digest(#[trigger] ds.deep_view()[j]),
                        ) == Some(true),
                decreases nd - k,
            {
                let digest = hash_disclosure(ds[k].as_str());
                match json_sd_has_digest(payload_bytes.as_slice(), digest.as_str()) {
                    Some(true) => {},
                    Some(false) => {
                        proof {
                            assert(json_sd_digest(
                                payload_bytes@,
                                disclosure_digest(ds.deep_view()[k as int]),
                            ) == Some(false));
                        }
                        return Err(
                            VerifierError::SignatureVerificationFailed(
                                String::from_str("Disclosure digest not in _sd"),
                            ),
                        );
                    },
                    None => {
                        proof {
                            assert(json_sd_digest(
                                payload_bytes@,
                                disclosure_digest(ds.deep_view()[k as int]),
                            ) is None);
                        }
                        return Err(VerifierError::InvalidJsonPayload);
                    },
                }
                k = k + 1;
            }
        },
        None => {},
    }
    match verify_sd_jwt(sd_jwt, public) {
        Ok(b) => Ok(b),
        Err(_) => Err(
            VerifierError::SignatureVerificationFailed(
                String::from_str("Signature verification failed"),
            ),
        ),
    }
}

/// Verify a credential: SD-JWT route when the credential carries one,
/// embedded-proof route otherwise.
pub fn verify_credential(credential: &CredentialResponse, public: &[u8]) -> (r: Result<
    bool,
    VerifierError,
>)
    requires
        public@.len() == 32,
    ensures
        r is Ok <==> credential_verifies(public@, credential@),
        r is Ok ==> r == Ok::<bool, VerifierError>(true),
        (credential@.sd_jwt is None && credential@.proof is None) <==> r matches Err(
            VerifierError::MissingProof,
        ),
        match credential@.sd_jwt {
            Some(jwt) => !sd_jwt_shape_ok(jwt) <==> r matches Err(
                VerifierError::InvalidCredentialFormat,
            ),
            None => !(r matches Err(VerifierError::InvalidCredentialFormat)),
        },
{
    match &credential.sd_jwt {
        Some(s) => verify_sd_jwt_credential(s.as_str(), &credential.disclosures, public),
        None => verify_vc_credential(credential, public),
    }
}

/// Verify a presentation: its own signature first, then each embedded
/// credential in input order, stopping at the first failure.
#[verifier::loop_isolation(false)]
pub fn verify_presentation(presentation: &VerifiablePresentation, public: &[u8]) -> (r: Result<
    bool,
    VerifierError,
>)
    requires
        public@.len() == 32,
    ensures
        r is Ok <==> presentation_verifies(public@, presentation@),
        r is Ok ==> r == Ok::<bool, VerifierError>(true),
        presentation@.proof is None ==> r matches Err(VerifierError::MissingProof),
        (match presentation@.proof {
            Some(pr) => vc_signature_good(public@, presentation@.without_proof().spec_json(), pr),
            None => false,
        } && r is Err) ==> exists|i: int|
            {
                &&& 0 <= i < presentation@.verifiable_credential.len()
                &&& !credential_verifies(
                    public@,
                    #[trigger] presentation@.verifiable_credential[i],
                )
                &&& forall|j: int|
                    0 <= j < i ==> credential_verifies(
                        public@,
                        #[trigger] presentation@.verifiable_credential[j],
                    )
                &&& match r {
                    Err(VerifierError::SignatureVerificationFailed(msg)) => msg@ == ("Credential ")@
                        + crate::canon::ser_nat(i) + (" failed verification")@,
                    _ => false,
                }
            },
{
    let presentation_without_proof = presentation.without_proof();
    let json = presentation_without_proof.to_json();
    let proof_ref = &presentation.proof;
    let proof_obj = match proof_ref {
        Some(p) => p,
        None => {
            return Err(VerifierError::MissingProof);
        },
    };
    proof {
        assert(presentation@.proof is Some);
    }
    match verify_vc(&json, proof_obj, public) {
        Ok(_) => {},
        Err(_) => {
            return Err(
                VerifierError::SignatureVerificationFailed(
                    String::from_str("Signature verification failed"),
                ),
            );
        },
    }
    let n = presentation.verifiable_credential.len();
    let mut i: usize = 0;
    while i < n
        invariant
            i <= n,
            n == presentation.verifiable_credential@.len(),
            public@.len() == 32,
            forall|j: int|
                0 <= j < i ==> credential_verifies(
                    public@,
                    #[trigger] presentation@.verifiable_credential[j],
                ),
        decreases n - i,
    {
        match verify_credential(&presentation.verifiable_credential[i], public) {
            Ok(_) => {},
            Err(_) => {
                let mut msg = String::from_str("Credential ");
                msg.append(crate::canon::nat_string(i as u64).as_str());
                msg.append(" failed verification");
                proof {
                    assert(!credential_verifies(
                        public@,
                        presentation@.verifiable_credential[i as int],
                    ));
                    assert(msg@ == ("Credential ")@ + crate::canon::ser_nat(i as int) + (
                    " failed verification")@);
                }
                return Err(VerifierError::SignatureVerificationFailed(msg));
            },
        }
        i = i + 1;
    }
    Ok(true)
}

} // verus!
