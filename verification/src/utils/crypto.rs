//! The two proof shapes over canonical JSON: the embedded
//! `Ed25519Signature2020` object with a Base58 signature, and the
//! compact JWS used for SD-JWTs with Base64url segments. Signing and
//! verification both run over the canonical serialization, so the
//! verified byte string is the signed byte string.

use vstd::prelude::*;
use vstd::utf8::encode_utf8;
use vstd::string::StringSliceAdditionalSpecFns;
use crate::json::{JsonModel, JsonValue, JsonEntry, jm_of_entries, lemma_jm_of_entries_index,
    lemma_entries_get_at};
use crate::canon::{canon, canon_string, to_canonical_string};
use crate::encoding::{base58_of, base58_decode_of, base64url_of, base64url_decode_of, b58_encode,
    b58_decode, b64url_encode, b64url_decode, b64url_char};
use crate::strutil::{dot_split, lemma_dot_split_three, push_char};
use crate::utils::error::UtilsError;
use crate::utils::key_manager::{KeyPair, ed25519_sign_of, ed25519_verifies, sign_bytes,
    verify_bytes};
use crate::models::credential::PublicKeyInfo;
use crate::sys::now_rfc3339;

verus! {

/// The bytes that are signed for a JSON value: the UTF-8 form of its
/// canonical serialization.
pub open spec fn json_msg_bytes(m: JsonModel) -> Seq<u8> {
    encode_utf8(canon_string(m))
}

/// The `proofValue` string of a proof object, if it carries one.
pub open spec fn proof_value_of(proof: JsonModel) -> Option<Seq<char>> {
    if proof.has_key(("proofValue")@) {
        match proof.get_key(("proofValue")@) {
            JsonModel::Str(s) => Some(s),
            _ => None,
        }
    } else {
        None
    }
}

/// Whether a detached proof object carries a Base58 signature that
/// verifies for the canonical bytes of `m` under `pk`. A `proofValue`
/// longer than 132 characters is outside the Base58 decoder's range
/// and never good (a 64-byte signature encodes to at most 128).
pub open spec fn vc_signature_good(pk: Seq<u8>, m: JsonModel, proof: JsonModel) -> bool {
    match proof_value_of(proof) {
        Some(pv) => pv.len() <= 132 && match base58_decode_of(pv) {
            Some(sig) => ed25519_verifies(pk, json_msg_bytes(m), sig),
            None => false,
        },
        None => false,
    }
}

/// The proof object this library emits: fixed type, method and
/// purpose, the creation time, and the Base58 signature.
pub open spec fn vc_proof_model(created: Seq<char>, pv: Seq<char>) -> JsonModel {
    JsonModel::Object(
        seq![
            (("type")@, JsonModel::Str(("Ed25519Signature2020")@)),
            (("created")@, JsonModel::Str(created)),
            (("verificationMethod")@, JsonModel::Str(("did:example:123#key-1")@)),
            (("proofPurpose")@, JsonModel::Str(("assertionMethod")@)),
            (("proofValue")@, JsonModel::Str(pv)),
        ],
    )
}

pub proof fn lemma_vc_proof_model_props(created: Seq<char>, pv: Seq<char>)
    ensures
        vc_proof_model(created, pv).wf(),
        proof_value_of(vc_proof_model(created, pv)) == Some(pv),
{
    reveal_strlit("type");
    reveal_strlit("created");
    reveal_strlit("verificationMethod");
    reveal_strlit("proofPurpose");
    reveal_strlit("proofValue");
    let e = vc_proof_model(created, pv)->Object_0;
    assert(e[0].0.len() == 4 && e[1].0.len() == 7 && e[2].0.len() == 18 && e[3].0.len() == 12
        && e[4].0.len() == 10);
    assert(e[0].1.wf() && e[1].1.wf() && e[2].1.wf() && e[3].1.wf() && e[4].1.wf());
    assert forall|i: int, j: int| 0 <= i < j < e.len() implies (#[trigger] e[i]).0 != (
    #[trigger] e[j]).0 by {
        assert(e[i].0.len() != e[j].0.len());
    }
    lemma_entries_get_at(e, ("proofValue")@, 4);
}

/// Entries appended after the signature fields leave the proof's
/// `proofValue` in place: the lookup takes the first match.
pub proof fn lemma_proof_value_extended(
    created: Seq<char>,
    pv: Seq<char>,
    extra: Seq<(Seq<char>, JsonModel)>,
)
    ensures
        proof_value_of(JsonModel::Object(vc_proof_model(created, pv)->Object_0 + extra)) == Some(
            pv,
        ),
{
    reveal_strlit("type");
    reveal_strlit("created");
    reveal_strlit("verificationMethod");
    reveal_strlit("proofPurpose");
    reveal_strlit("proofValue");
    let base = vc_proof_model(created, pv)->Object_0;
    let e = base + extra;
    assert(e[0].0.len() == 4 && e[1].0.len() == 7 && e[2].0.len() == 18 && e[3].0.len() == 12
        && e[4].0.len() == 10);
    lemma_entries_get_at(e, ("proofValue")@, 4);
}

/// The JOSE header of every SD-JWT this library signs.
pub open spec fn jose_header() -> JsonModel {
    JsonModel::Object(
        seq![
            (("alg")@, JsonModel::Str(("EdDSA")@)),
            (("typ")@, JsonModel::Str(("JWT")@)),
        ],
    )
}

/// The `header.payload` signing input of the compact JWS for `m`.
pub open spec fn sd_jwt_signing_input(m: JsonModel) -> Seq<char> {
    base64url_of(encode_utf8(canon_string(jose_header()))) + seq!['.'] + base64url_of(
        json_msg_bytes(m),
    )
}

/// The full compact JWS `header.payload.signature` for `m`.
pub open spec fn sd_jwt_compact(secret: Seq<u8>, m: JsonModel) -> Seq<char> {
    sd_jwt_signing_input(m) + seq!['.'] + base64url_of(
        ed25519_sign_of(secret, encode_utf8(sd_jwt_signing_input(m))),
    )
}

/// Three non-empty dot-separated segments.
pub open spec fn sd_jwt_shape_ok(jwt: Seq<char>) -> bool {
    let parts = dot_split(jwt);
    &&& parts.len() == 3
    &&& parts[0].len() > 0
    &&& parts[1].len() > 0
    &&& parts[2].len() > 0
}

/// Whether a compact JWS splits into three segments whose signature
/// verifies over `header.payload` under `pk`.
pub open spec fn sd_jwt_signature_good(pk: Seq<u8>, jwt: Seq<char>) -> bool {
    let parts = dot_split(jwt);
    &&& parts.len() == 3
    &&& match base64url_decode_of(parts[2]) {
        Some(sig) => ed25519_verifies(pk, encode_utf8(parts[0] + seq!['.'] + parts[1]), sig),
        None => false,
    }
}

/// Sign a JSON value the VC way: canonicalize, sign, and wrap the
/// Base58 signature in an `Ed25519Signature2020` proof object.
pub fn sign_vc(json: &JsonValue, kp: &KeyPair) -> (r: Result<JsonValue, UtilsError>)
    requires
        kp.wf(),
    ensures
        match r {
            Ok(p) => {
                &&& exists|created: Seq<char>|
                    p@ == vc_proof_model(
                        created,
                        base58_of(ed25519_sign_of(kp.secret@, json_msg_bytes(json@))),
                    )
                &&& p@.wf()
                &&& vc_signature_good(kp.public@, json@, p@)
            },
            Err(_) => false,
        },
{
    let message = to_canonical_string(json);
    let signature = sign_bytes(kp, message.as_str().as_bytes());
    let proof_value = b58_encode(signature.as_slice());
    let created = now_rfc3339();
    let ghost created_view = created@;
    let mut entries: Vec<JsonEntry> = Vec::new();
    entries.push(
        JsonEntry {
            key: String::from_str("type"),
            value: JsonValue::Str(String::from_str("Ed25519Signature2020")),
        },
    );
    entries.push(JsonEntry { key: String::from_str("created"), value: JsonValue::Str(created) });
    entries.push(
        JsonEntry {
            key: String::from_str("verificationMethod"),
            value: JsonValue::Str(String::from_str("did:example:123#key-1")),
        },
    );
    entries.push(
        JsonEntry {
            key: String::from_str("proofPurpose"),
            value: JsonValue::Str(String::from_str("assertionMethod")),
        },
    );
    entries.push(
        JsonEntry { key: String::from_str("proofValue"), value: JsonValue::Str(proof_value) },
    );
    let ghost es = entries@;
    let p = JsonValue::Object(entries);
    proof {
        lemma_jm_of_entries_index(es);
        let ghost pv = base58_of(ed25519_sign_of(kp.secret@, json_msg_bytes(json@)));
        assert(jm_of_entries(es)[0] == (("type")@, JsonModel::Str(("Ed25519Signature2020")@)));
        assert(jm_of_entries(es)[1] == (("created")@, JsonModel::Str(created_view)));
        assert(jm_of_entries(es)[2] == (
        ("verificationMethod")@,
        JsonModel::Str(("did:example:123#key-1")@),
        ));
        assert(jm_of_entries(es)[3] == (("proofPurpose")@, JsonModel::Str(("assertionMethod")@)));
        assert(jm_of_entries(es)[4] == (("proofValue")@, JsonModel::Str(pv)));
        assert(jm_of_entries(es) =~= vc_proof_model(created_view, pv)->Object_0);
        assert(p@ == vc_proof_model(created_view, pv));
        lemma_vc_proof_model_props(created_view, pv);
    }
    Ok(p)
}

/// Check a detached proof object against a JSON value: re-serialize
/// canonically, decode `proofValue` from Base58, and verify.
pub fn verify_vc(json: &JsonValue, proof: &JsonValue, public: &[u8]) -> (r: Result<
    bool,
    UtilsError,
>)
    requires
        public@.len() == 32,
    ensures
        r is Ok <==> vc_signature_good(public@, json@, proof@),
        r is Ok ==> r == Ok::<bool, UtilsError>(true),
        r is Err ==> r matches Err(UtilsError::SignatureError(_)),
{
    let message = to_canonical_string(json);
    let pv = match proof.get("proofValue") {
        Some(v) => match v {
            JsonValue::Str(s) => s,
            _ => {
                return Err(UtilsError::SignatureError(String::from_str("Invalid proof value")));
            },
        },
        None => {
            return Err(UtilsError::SignatureError(String::from_str("Invalid proof value")));
        },
    };
    if pv.as_str().unicode_len() > 132 {
        return Err(UtilsError::SignatureError(String::from_str("Invalid base58 encoding")));
    }
    let signature = match b58_decode(pv.as_str()) {
        Some(b) => b,
        None => {
            return Err(UtilsError::SignatureError(String::from_str("Invalid base58 encoding")));
        },
    };
    if verify_bytes(public, message.as_str().as_bytes(), signature.as_slice()) {
        Ok(true)
    } else {
        Err(UtilsError::SignatureError(String::from_str("Signature verification failed")))
    }
}

/// Sign a JSON value the SD-JWT way: Base64url-encode the canonical
/// header and payload, sign `header.payload`, and append the Base64url
/// signature.
pub fn sign_sd_jwt(json: &JsonValue, kp: &KeyPair) -> (r: Result<String, UtilsError>)
    requires
        kp.wf(),
    ensures
        match r {
            Ok(jwt) => {
                &&& jwt@ == sd_jwt_compact(kp.secret@, json@)
                &&& sd_jwt_signature_good(kp.public@, jwt@)
                &&& sd_jwt_shape_ok(jwt@)
            },
            Err(_) => false,
        },
{
    let mut header_entries: Vec<JsonEntry> = Vec::new();
    header_entries.push(
        JsonEntry { key: String::from_str("alg"), value: JsonValue::Str(String::from_str("EdDSA")) },
    );
    header_entries.push(
        JsonEntry { key: String::from_str("typ"), value: JsonValue::Str(String::from_str("JWT")) },
    );
    let ghost hes = header_entries@;
    let header = JsonValue::Object(header_entries);
    proof {
        lemma_jm_of_entries_index(hes);
        assert(jm_of_entries(hes)[0] == (("alg")@, JsonModel::Str(("EdDSA")@)));
        assert(jm_of_entries(hes)[1] == (("typ")@, JsonModel::Str(("JWT")@)));
        assert(jm_of_entries(hes) =~= jose_header()->Object_0);
        assert(header@ == jose_header());
    }
    let header_str = to_canonical_string(&header);
    let header_encoded = b64url_encode(header_str.as_str().as_bytes());
    let payload_str = to_canonical_string(json);
    let payload_encoded = b64url_encode(payload_str.as_str().as_bytes());

    let mut signing_input = header_encoded;
    push_char(&mut signing_input, '.');
    signing_input.append(payload_encoded.as_str());
    proof {
        assert(signing_input@ =~= sd_jwt_signing_input(json@));
    }

    let signature = sign_bytes(kp, signing_input.as_str().as_bytes());
    let signature_encoded = b64url_encode(signature.as_slice());

    let ghost h = base64url_of(encode_utf8(canon_string(jose_header())));
    let ghost p = base64url_of(json_msg_bytes(json@));
    let ghost s = signature_encoded@;

    let mut jwt = signing_input;
    push_char(&mut jwt, '.');
    jwt.append(signature_encoded.as_str());
    proof {
        assert(jwt@ =~= sd_jwt_compact(kp.secret@, json@));
        assert forall|i: int| 0 <= i < h.len() implies h[i] != '.' by {
            assert(b64url_char(h[i]));
        }
        assert forall|i: int| 0 <= i < p.len() implies p[i] != '.' by {
            assert(b64url_char(p[i]));
        }
        assert forall|i: int| 0 <= i < s.len() implies s[i] != '.' by {
            assert(b64url_char(s[i]));
        }
        lemma_dot_split_three(h, p, s);
        assert(jwt@ =~= h + seq!['.'] + p + seq!['.'] + s);
        assert(dot_split(jwt@)[0] + seq!['.'] + dot_split(jwt@)[1] =~= signing_input@);
        crate::canon::lemma_ser_nonempty(canon(jose_header()));
        crate::canon::lemma_ser_nonempty(canon(json@));
        crate::canon::lemma_encode_utf8_len(canon_string(jose_header()));
        crate::canon::lemma_encode_utf8_len(canon_string(json@));
        assert(h.len() > 0 && p.len() > 0 && s.len() > 0);
    }
    Ok(jwt)
}

/// Check a compact JWS: split on dots, decode the signature, and
/// verify it over `header.payload`.
pub fn verify_sd_jwt(jwt: &str, public: &[u8]) -> (r: Result<bool, UtilsError>)
    requires
        public@.len() == 32,
    ensures
        r is Ok <==> sd_jwt_signature_good(public@, jwt@),
        r is Ok ==> r == Ok::<bool, UtilsError>(true),
        r is Err ==> r matches Err(UtilsError::SignatureError(_)),
        dot_split(jwt@).len() != 3 ==> (match r {
            Err(UtilsError::SignatureError(msg)) => msg@ == ("Invalid JWT format")@,
            _ => false,
        }),
{
    let parts = crate::strutil::split_dots(jwt);
    if parts.len() != 3 {
        return Err(UtilsError::SignatureError(String::from_str("Invalid JWT format")));
    }
    let mut signing_input = parts[0].clone();
    push_char(&mut signing_input, '.');
    signing_input.append(parts[1].as_str());
    proof {
        assert(parts@[0]@ == dot_split(jwt@)[0]);
        assert(parts@[1]@ == dot_split(jwt@)[1]);
        assert(parts@[2]@ == dot_split(jwt@)[2]);
        assert(signing_input@ =~= dot_split(jwt@)[0] + seq!['.'] + dot_split(jwt@)[1]);
    }
    let signature = match b64url_decode(parts[2].as_str()) {
        Some(b) => b,
        None => {
            return Err(UtilsError::SignatureError(String::from_str("Invalid base64 encoding")));
        },
    };
    if verify_bytes(public, signing_input.as_str().as_bytes(), signature.as_slice()) {
        Ok(true)
    } else {
        Err(UtilsError::SignatureError(String::from_str("Signature verification failed")))
    }
}

/// Sign a JSON value, picking the shape by the `_sd_alg` marker: a
/// compact JWS string for SD-JWT claim sets, an embedded proof object
/// otherwise.
pub fn sign_json(json: &JsonValue, kp: &KeyPair) -> (r: Result<JsonValue, UtilsError>)
    requires
        kp.wf(),
    ensures
        match r {
            Ok(v) => if json@.has_key(("_sd_alg")@) {
                &&& v@ == JsonModel::Str(sd_jwt_compact(kp.secret@, json@))
                &&& sd_jwt_signature_good(kp.public@, sd_jwt_compact(kp.secret@, json@))
                &&& sd_jwt_shape_ok(sd_jwt_compact(kp.secret@, json@))
            } else {
                &&& exists|created: Seq<char>|
                    v@ == vc_proof_model(
                        created,
                        base58_of(ed25519_sign_of(kp.secret@, json_msg_bytes(json@))),
                    )
                &&& v@.wf()
                &&& vc_signature_good(kp.public@, json@, v@)
            },
            Err(_) => false,
        },
{
    if json.has_key("_sd_alg") {
        match sign_sd_jwt(json, kp) {
            Ok(jwt) => Ok(JsonValue::Str(jwt)),
            Err(e) => Err(e),
        }
    } else {
        sign_vc(json, kp)
    }
}

/// The public key bytes of the active key pair.
pub fn get_public_key(kp: &KeyPair) -> (r: Vec<u8>)
    ensures
        r@ == kp.public@,
{
    kp.public.clone()
}

/// The active public key as published in issuer metadata: multibase
/// `z` followed by the Base58 form.
pub fn get_public_key_info(kp: &KeyPair) -> (r: Result<PublicKeyInfo, UtilsError>)
    requires
        kp.wf(),
    ensures
        match r {
            Ok(info) => {
                &&& info.id@ == ("did:example:123#key-1")@
                &&& info.key_type@ == ("Ed25519VerificationKey2020")@
                &&& info.public_key_multibase@ == seq!['z'] + base58_of(kp.public@)
            },
            Err(_) => false,
        },
{
    let encoded = b58_encode(kp.public.as_slice());
    let mut multibase = String::from_str("z");
    proof {
        reveal_strlit("z");
        assert(("z")@ =~= seq!['z']);
    }
    multibase.append(encoded.as_str());
    Ok(
        PublicKeyInfo {
            id: String::from_str("did:example:123#key-1"),
            key_type: String::from_str("Ed25519VerificationKey2020"),
            public_key_multibase: multibase,
        },
    )
}

} // verus!
