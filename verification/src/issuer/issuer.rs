//! Assembling, validating and signing credentials: the plain VC flavour
//! with an embedded proof, and the SD-JWT flavour whose subject is
//! split into cleartext claims and salted digests.

use vstd::prelude::*;
use crate::json::{JsonModel, JsonValue, JsonEntry, jm_of, jm_of_entries,
    lemma_jm_of_entries_index};
use crate::models::credential::{CredentialRequest, CredentialResponse, CredentialModel,
    IssuerMetadata, lemma_credential_json_no_sd_alg};
use crate::models::sd_jwt::{SDJWTCredentialRequest, SDJWTCredentialResponse};
use crate::models::schema::CredentialSchema;
use crate::issuer::error::IssuerError;
use crate::issuer::schema::{known_type, registry_props, registry_reqs, subject_valid_parts,
    get_schema as registry_get_schema, validate_credential_subject};
use crate::utils::crypto::{sign_json, get_public_key_info, vc_signature_good, vc_proof_model,
    sd_jwt_compact, sd_jwt_signature_good, sd_jwt_shape_ok};
use crate::utils::error::UtilsError;
use crate::utils::key_manager::KeyPair;
use crate::utils::sd_jwt::{partition, cleartext_of, disclosed_of, disclosure_for,
    disclosure_digest};
use crate::strutil::eq_str;
use crate::sys::{now_rfc3339, now_unix, uuid_v4_string};

verus! {

/// A credential whose embedded proof signs its own canonical form with
/// the proof taken out. The proof has the `Ed25519Signature2020` shape
/// this library emits: fixed type, verification method and purpose,
/// with a string `created` and `proofValue`.
pub open spec fn vc_signed_credential(pk: Seq<u8>, c: CredentialModel) -> bool {
    match c.proof {
        Some(p) => {
            &&& p.wf()
            &&& exists|created: Seq<char>, pv: Seq<char>| p == #[trigger] vc_proof_model(created, pv)
            &&& vc_signature_good(pk, c.without_proof().spec_json(), p)
        },
        None => false,
    }
}

/// The base type every credential must list.
pub open spec fn types_has_base(types: Seq<Seq<char>>) -> bool {
    exists|i: int| 0 <= i < types.len() && types[i] == ("VerifiableCredential")@
}

/// What the issuer promises of a freshly issued plain credential.
pub open spec fn issued_credential_ok(
    pk: Seq<u8>,
    context: Seq<Seq<char>>,
    types: Seq<Seq<char>>,
    subject: JsonModel,
    c: CredentialModel,
) -> bool {
    &&& c.context == context
    &&& c.types == types
    &&& types_has_base(types)
    &&& c.issuer == ("did:example:123")@
    &&& c.credential_subject == subject
    &&& c.sd_jwt is None
    &&& c.disclosures is None
    &&& match c.id {
        Some(id) => {
            &&& id.len() == ("http://example.edu/credentials/")@.len() + 36
            &&& id.take(("http://example.edu/credentials/")@.len() as int) == (
            "http://example.edu/credentials/")@
        },
        None => false,
    }
    &&& vc_signed_credential(pk, c)
}

/// The first listed type that is not the base `VerifiableCredential`.
pub open spec fn chosen_type(types: Seq<Seq<char>>) -> Option<Seq<char>>
    decreases types.len(),
{
    if types.len() == 0 {
        None
    } else if types[0] != ("VerifiableCredential")@ {
        Some(types[0])
    } else {
        chosen_type(types.drop_first())
    }
}

proof fn lemma_chosen_type_skip(types: Seq<Seq<char>>, i: int)
    requires
        0 <= i <= types.len(),
        forall|j: int| 0 <= j < i ==> types[j] == ("VerifiableCredential")@,
    ensures
        chosen_type(types) == chosen_type(types.skip(i)),
    decreases i,
{
    if i > 0 {
        lemma_chosen_type_skip(types.drop_first(), i - 1);
        assert(types.drop_first().skip(i - 1) =~= types.skip(i));
    } else {
        assert(types.skip(0) =~= types);
    }
}

/// Whether the type list carries the base `VerifiableCredential`.
fn has_base_type(types: &Vec<String>) -> (r: bool)
    ensures
        r == types_has_base(types.deep_view()),
{
    let n = types.len();
    let mut i: usize = 0;
    while i < n
        invariant
            i <= n,
            n == types@.len(),
            forall|j: int| 0 <= j < i ==> types.deep_view()[j] != ("VerifiableCredential")@,
        decreases n - i,
    {
        if eq_str(types[i].as_str(), "VerifiableCredential") {
            proof {
                assert(types.deep_view()[i as int] == ("VerifiableCredential")@);
            }
            return true;
        }
        i = i + 1;
    }
    false
}

/// The first type in the request that is not the base type.
pub fn get_credential_type(types: &Vec<String>) -> (r: Result<String, IssuerError>)
    ensures
        match r {
            Ok(t) => chosen_type(types.deep_view()) == Some(t@),
            Err(e) => chosen_type(types.deep_view()) is None && e matches IssuerError::InvalidType(
                _,
            ),
        },
{
    let n = types.len();
    let mut i: usize = 0;
    while i < n
        invariant
            i <= n,
            n == types@.len(),
            forall|j: int| 0 <= j < i ==> types.deep_view()[j] == ("VerifiableCredential")@,
        decreases n - i,
    {
        if !eq_str(types[i].as_str(), "VerifiableCredential") {
            proof {
                lemma_chosen_type_skip(types.deep_view(), i as int);
                assert(types.deep_view().skip(i as int)[0] == types.deep_view()[i as int]);
            }
            return Ok(types[i].clone());
        }
        i = i + 1;
    }
    proof {
        lemma_chosen_type_skip(types.deep_view(), n as int);
        assert(types.deep_view().skip(n as int).len() == 0);
    }
    Err(IssuerError::InvalidType(String::from_str("No specific credential type provided")))
}

/// The registry schema for a type, or the error naming the type.
pub fn get_schema(credential_type: &str) -> (r: Result<CredentialSchema, IssuerError>)
    ensures
        r is Ok <==> known_type(credential_type@),
        match r {
            Ok(s) => {
                &&& s.credential_type@ == credential_type@
                &&& s.props() == registry_props(credential_type@)
                &&& s.reqs() == registry_reqs(credential_type@)
            },
            Err(e) => match e {
                IssuerError::InvalidType(msg) => msg@ == ("Unsupported credential type: ")@
                    + credential_type@,
                _ => false,
            },
        },
{
    match registry_get_schema(credential_type) {
        Some(s) => Ok(s),
        None => {
            let mut msg = String::from_str("Unsupported credential type: ");
            msg.append(credential_type);
            Err(IssuerError::InvalidType(msg))
        },
    }
}

/// A fresh unsigned credential: the requested content under a newly
/// minted id, issued now by this issuer.
pub fn create_unsigned_credential(request: CredentialRequest) -> (r: Result<
    CredentialResponse,
    IssuerError,
>)
    ensures
        match r {
            Ok(c) => {
                &&& c@.context == request.context.deep_view()
                &&& c@.types == request.types.deep_view()
                &&& c@.issuer == ("did:example:123")@
                &&& c@.credential_subject == request.credential_subject@
                &&& c@.proof is None
                &&& c@.sd_jwt is None
                &&& c@.disclosures is None
                &&& match c@.id {
                    Some(id) => {
                        &&& id.len() == ("http://example.edu/credentials/")@.len() + 36
                        &&& id.take(("http://example.edu/credentials/")@.len() as int) == (
                        "http://example.edu/credentials/")@
                    },
                    None => false,
                }
            },
            Err(_) => false,
        },
{
    let credential_id = uuid_v4_string();
    let mut id = String::from_str("http://example.edu/credentials/");
    let ghost prefix = id@;
    id.append(credential_id.as_str());
    proof {
        assert(id@.take(prefix.len() as int) =~= prefix);
    }
    Ok(
        CredentialResponse {
            context: request.context,
            id: Some(id),
            types: request.types,
            issuer: String::from_str("did:example:123"),
            issuance_date: now_rfc3339(),
            credential_subject: request.credential_subject,
            proof: None,
            sd_jwt: None,
            disclosures: None,
        },
    )
}

/// Serialize the credential canonically, sign it, and attach the proof.
fn sign_and_finalize_credential(credential: CredentialResponse, kp: &KeyPair) -> (r: Result<
    CredentialResponse,
    IssuerError,
>)
    requires
        kp.wf(),
        credential@.proof is None,
    ensures
        match r {
            Ok(c) => c@.without_proof() == credential@ && vc_signed_credential(kp.public@, c@),
            Err(_) => false,
        },
{
    let credential_json = credential.to_json();
    proof {
        lemma_credential_json_no_sd_alg(credential@);
    }
    let proof_obj = match sign_json(&credential_json, kp) {
        Ok(p) => p,
        Err(_) => {
            return Err(IssuerError::SigningError(String::from_str("signing failed")));
        },
    };
    let mut c = credential;
    c.proof = Some(proof_obj);
    Ok(c)
}

/// Issue a plain credential: pick the concrete type, check the subject
/// against its schema, mint an id, and sign.
pub fn create_credential(request: CredentialRequest, kp: &KeyPair) -> (r: Result<
    CredentialResponse,
    IssuerError,
>)
    requires
        kp.wf(),
    ensures
        r is Ok <==> (types_has_base(request.types.deep_view()) && match chosen_type(
            request.types.deep_view(),
        ) {
            Some(t) => known_type(t) && subject_valid_parts(
                request.credential_subject@,
                registry_props(t),
                registry_reqs(t),
            ),
            None => false,
        }),
        match r {
            Ok(c) => issued_credential_ok(
                kp.public@,
                request.context.deep_view(),
                request.types.deep_view(),
                request.credential_subject@,
                c@,
            ),
            Err(e) => {
                &&& (!types_has_base(request.types.deep_view()) ==> e matches
                    IssuerError::InvalidType(_))
                &&& (types_has_base(request.types.deep_view()) && chosen_type(
                    request.types.deep_view(),
                ) is None ==> e matches IssuerError::InvalidType(_))
                &&& (match chosen_type(request.types.deep_view()) {
                    Some(t) => (types_has_base(request.types.deep_view()) && !known_type(t))
                        ==> (match e {
                        IssuerError::InvalidType(msg) => msg@ == ("Unsupported credential type: ")@
                            + t,
                        _ => false,
                    }),
                    None => true,
                })
                &&& (match chosen_type(request.types.deep_view()) {
                    Some(t) => (types_has_base(request.types.deep_view()) && known_type(t)) ==> e
                        matches IssuerError::SchemaValidationError(_),
                    None => true,
                })
            },
        },
{
    if !has_base_type(&request.types) {
        return Err(
            IssuerError::InvalidType(String::from_str("Missing VerifiableCredential in type")),
        );
    }
    let credential_type = match get_credential_type(&request.types) {
        Ok(t) => t,
        Err(e) => {
            return Err(e);
        },
    };
    let schema = match get_schema(credential_type.as_str()) {
        Ok(s) => s,
        Err(e) => {
            return Err(e);
        },
    };
    match validate_credential_subject(&request.credential_subject, &schema) {
        Ok(_) => {},
        Err(e) => {
            return Err(e);
        },
    }
    let credential = match create_unsigned_credential(request) {
        Ok(c) => c,
        Err(e) => {
            return Err(e);
        },
    };
    sign_and_finalize_credential(credential, kp)
}

/// The claim names this issuer makes selectively disclosable.
pub open spec fn default_disclosure_keys() -> Seq<Seq<char>> {
    seq![("email")@, ("birthdate")@]
}

/// What an SD-JWT claim set holds for a subject: the standard claims,
/// the cleartext part of the subject, and the digest map, with each
/// digest committing a salted disclosure string.
pub open spec fn sd_payload_ok_with(
    subject: JsonModel,
    keys: Seq<Seq<char>>,
    payload: JsonModel,
    discs: Seq<Seq<char>>,
    iat: int,
    sd_entries: Seq<(Seq<char>, JsonModel)>,
) -> bool {
    &&& subject is Object
    &&& payload == JsonModel::Object(
        seq![
            (("iss")@, JsonModel::Str(("did:example:123")@)),
            (("iat")@, JsonModel::Int(iat)),
            (("vct")@, JsonModel::Str(("SDJWTCredential")@)),
            (("_sd_alg")@, JsonModel::Str(("sha-256")@)),
        ] + cleartext_of(subject->Object_0, keys) + seq![
            (("_sd")@, JsonModel::Object(sd_entries)),
        ],
    )
    &&& sd_entries.len() == disclosed_of(subject->Object_0, keys).len()
    &&& discs.len() == sd_entries.len()
    &&& forall|i: int|
        0 <= i < sd_entries.len() ==> {
            &&& (#[trigger] sd_entries[i]).0 == disclosed_of(subject->Object_0, keys)[i].0
            &&& sd_entries[i].1 == JsonModel::Str(disclosure_digest(discs[i]))
            &&& disclosure_for(discs[i], disclosed_of(subject->Object_0, keys)[i])
        }
}

pub open spec fn sd_payload_ok(
    subject: JsonModel,
    keys: Seq<Seq<char>>,
    payload: JsonModel,
    discs: Seq<Seq<char>>,
) -> bool {
    exists|iat: int, sd_entries: Seq<(Seq<char>, JsonModel)>|
        sd_payload_ok_with(subject, keys, payload, discs, iat, sd_entries)
}

/// What a freshly minted SD-JWT satisfies: it is the compact signature
/// of a claim set partitioned from the subject.
pub open spec fn sd_jwt_issued_ok(
    pk: Seq<u8>,
    secret: Seq<u8>,
    subject: JsonModel,
    jwt: Seq<char>,
    discs: Seq<Seq<char>>,
) -> bool {
    &&& subject is Object
    &&& exists|payload: JsonModel|
        #![trigger sd_payload_ok(subject, default_disclosure_keys(), payload, discs)]
        {
            &&& sd_payload_ok(subject, default_disclosure_keys(), payload, discs)
            &&& jwt == sd_jwt_compact(secret, payload)
            &&& payload.has_key(("_sd_alg")@)
        }
    &&& sd_jwt_signature_good(pk, jwt)
    &&& sd_jwt_shape_ok(jwt)
}

/// Build and sign the SD-JWT for a subject: partition the claims, then
/// sign the claim set compactly.
fn create_sd_jwt(request: &SDJWTCredentialRequest, kp: &KeyPair) -> (r: Result<
    (String, Vec<String>),
    IssuerError,
>)
    requires
        kp.wf(),
    ensures
        match r {
            Ok((jwt, discs)) => sd_jwt_issued_ok(
                kp.public@,
                kp.secret@,
                request.credential_subject@,
                jwt@,
                discs.deep_view(),
            ),
            Err(e) => !(request.credential_subject@ is Object) && e matches
                IssuerError::SchemaValidationError(_),
        },
{
    let mut disclose: Vec<String> = Vec::new();
    disclose.push(String::from_str("email"));
    disclose.push(String::from_str("birthdate"));
    proof {
        assert(disclose.deep_view() =~= default_disclosure_keys());
    }
    let (clear, sd, discs) = match partition(&request.credential_subject, &disclose) {
        Ok(t) => t,
        Err(_) => {
            return Err(
                IssuerError::SchemaValidationError(String::from_str("Invalid subject format")),
            );
        },
    };
    let iat = now_unix();
    let mut claims: Vec<JsonEntry> = Vec::new();
    claims.push(
        JsonEntry {
            key: String::from_str("iss"),
            value: JsonValue::Str(String::from_str("did:example:123")),
        },
    );
    claims.push(JsonEntry { key: String::from_str("iat"), value: JsonValue::Int(iat) });
    claims.push(
        JsonEntry {
            key: String::from_str("vct"),
            value: JsonValue::Str(String::from_str("SDJWTCredential")),
        },
    );
    claims.push(
        JsonEntry {
            key: String::from_str("_sd_alg"),
            value: JsonValue::Str(String::from_str("sha-256")),
        },
    );
    let ghost fixed = claims@;
    let nc = clear.len();
    let mut i: usize = 0;
    while i < nc
        invariant
            i <= nc,
            nc == clear@.len(),
            claims@.len() == fixed.len() + i,
            claims@.take(fixed.len() as int) == fixed,
            forall|j: int|
                0 <= j < i ==> (#[trigger] claims@[fixed.len() + j]).key@ == clear@[j].key@
                    && claims@[fixed.len() + j].value@ == clear@[j].value@,
        decreases nc - i,
    {
        let key = clear[i].key.clone();
        let value = clear[i].value.clone();
        let ghost before = claims@;
        claims.push(JsonEntry { key, value });
        proof {
            assert(claims@.take(fixed.len() as int) =~= before.take(fixed.len() as int));
        }
        i = i + 1;
    }
    let ghost with_clear = claims@;
    let ghost sd_entries = jm_of_entries(sd@);
    claims.push(JsonEntry { key: String::from_str("_sd"), value: JsonValue::Object(sd) });
    let claims_json = JsonValue::Object(claims);
    let ghost subject = request.credential_subject@;
    let ghost keys = default_disclosure_keys();
    proof {
        let es = claims_json->Object_0@;
        let target = seq![
            (("iss")@, JsonModel::Str(("did:example:123")@)),
            (("iat")@, JsonModel::Int(iat as int)),
            (("vct")@, JsonModel::Str(("SDJWTCredential")@)),
            (("_sd_alg")@, JsonModel::Str(("sha-256")@)),
        ] + cleartext_of(subject->Object_0, keys) + seq![
            (("_sd")@, JsonModel::Object(sd_entries)),
        ];
        lemma_jm_of_entries_index(es);
        lemma_jm_of_entries_index(clear@);
        assert(es == with_clear.push(es[es.len() - 1]));
        assert(es.len() == 4 + clear@.len() + 1);
        assert(cleartext_of(subject->Object_0, keys).len() == clear@.len());
        assert forall|i: int| 0 <= i < es.len() implies jm_of_entries(es)[i] == target[i] by {
            if i < 4 {
                assert(es[i] == with_clear[i]);
                assert(with_clear[i] == with_clear.take(4)[i]);
                assert(with_clear.take(4) == fixed);
            } else if i < es.len() - 1 {
                assert(es[i] == with_clear[i]);
                assert(jm_of_entries(es)[i] == (es[i].key@, jm_of(es[i].value)));
                assert(fixed.len() == 4);
                assert(with_clear[fixed.len() + (i - 4)].key@ == clear@[i - 4].key@
                    && with_clear[fixed.len() + (i - 4)].value@ == clear@[i - 4].value@);
                assert(with_clear[i].key@ == clear@[i - 4].key@ && with_clear[i].value@
                    == clear@[i - 4].value@);
                assert(jm_of_entries(clear@)[i - 4] == (clear@[i - 4].key@, jm_of(
                    clear@[i - 4].value,
                )));
                assert(target[i] == cleartext_of(subject->Object_0, keys)[i - 4]);
            }
        }
        assert(jm_of_entries(es) =~~= target);
        lemma_jm_of_entries_index(sd@);
        assert(sd_entries.len() == sd@.len());
        assert forall|i: int| 0 <= i < sd_entries.len() implies {
            &&& (#[trigger] sd_entries[i]).0 == disclosed_of(subject->Object_0, keys)[i].0
            &&& sd_entries[i].1 == JsonModel::Str(disclosure_digest(discs.deep_view()[i]))
            &&& disclosure_for(discs.deep_view()[i], disclosed_of(subject->Object_0, keys)[i])
        } by {
            assert(sd_entries[i] == (sd@[i].key@, jm_of(sd@[i].value)));
            assert(sd@[i].value@ == JsonModel::Str(disclosure_digest(discs@[i]@)));
        }
        assert(sd_payload_ok_with(
            subject,
            keys,
            claims_json@,
            discs.deep_view(),
            iat as int,
            sd_entries,
        ));
        assert(jm_of_entries(es)[3].0 == ("_sd_alg")@);
        assert(claims_json@ == JsonModel::Object(jm_of_entries(es)));
        assert(0 <= 3 < jm_of_entries(es).len());
        assert((claims_json@->Object_0)[3].0 == ("_sd_alg")@);
        assert(claims_json@.has_key(("_sd_alg")@));
    }
    let signed = match sign_json(&claims_json, kp) {
        Ok(v) => v,
        Err(_) => {
            return Err(IssuerError::SigningError(String::from_str("signing failed")));
        },
    };
    let jwt = match signed {
        JsonValue::Str(s) => s,
        _ => {
            proof {
                assert(false);
            }
            return Err(IssuerError::SigningError(String::from_str("signing failed")));
        },
    };
    proof {
        assert(sd_payload_ok(subject, keys, claims_json@, discs.deep_view()));
        assert(sd_jwt_issued_ok(kp.public@, kp.secret@, subject, jwt@, discs.deep_view()));
    }
    Ok((jwt, discs))
}

/// Issue an SD-JWT credential: the SD-JWT and its disclosures ride on
/// a plain credential of type `SDJWTCredential`.
pub fn create_sd_jwt_credential(request: SDJWTCredentialRequest, kp: &KeyPair) -> (r: Result<
    CredentialResponse,
    IssuerError,
>)
    requires
        kp.wf(),
    ensures
        r is Ok <==> (request.credential_subject@ is Object && subject_valid_parts(
            request.credential_subject@,
            registry_props(("SDJWTCredential")@),
            registry_reqs(("SDJWTCredential")@),
        )),
        match r {
            Ok(c) => {
                &&& match (c@.sd_jwt, c@.disclosures) {
                    (Some(jwt), Some(discs)) => sd_jwt_issued_ok(
                        kp.public@,
                        kp.secret@,
                        request.credential_subject@,
                        jwt,
                        discs,
                    ),
                    _ => false,
                }
                &&& issued_credential_ok(
                    kp.public@,
                    seq![("https://www.w3.org/2018/credentials/v1")@],
                    seq![("VerifiableCredential")@, ("SDJWTCredential")@],
                    request.credential_subject@,
                    CredentialModel { sd_jwt: None, disclosures: None, ..c@ },
                )
            },
            Err(e) => e matches IssuerError::SchemaValidationError(_),
        },
{
    let (sd_jwt, disclosures) = match create_sd_jwt(&request, kp) {
        Ok(t) => t,
        Err(e) => {
            return Err(e);
        },
    };
    let mut context: Vec<String> = Vec::new();
    context.push(String::from_str("https://www.w3.org/2018/credentials/v1"));
    let mut types: Vec<String> = Vec::new();
    types.push(String::from_str("VerifiableCredential"));
    types.push(String::from_str("SDJWTCredential"));
    let vc_request = CredentialRequest {
        context,
        types,
        issuer: String::new(),
        issuance_date: String::new(),
        credential_subject: request.credential_subject,
    };
    proof {
        reveal_strlit("VerifiableCredential");
        reveal_strlit("SDJWTCredential");
        assert(vc_request.types.deep_view() =~= seq![
            ("VerifiableCredential")@,
            ("SDJWTCredential")@,
        ]);
        assert(vc_request.context.deep_view() =~= seq![
            ("https://www.w3.org/2018/credentials/v1")@,
        ]);
        assert(types_has_base(vc_request.types.deep_view())) by {
            assert(vc_request.types.deep_view()[0] == ("VerifiableCredential")@);
        }
        assert(chosen_type(vc_request.types.deep_view()) == Some(("SDJWTCredential")@)) by {
            let ts = vc_request.types.deep_view();
            let rest = ts.drop_first();
            assert(ts[0] == ("VerifiableCredential")@);
            assert(rest =~= seq![("SDJWTCredential")@]);
            assert(rest[0] == ("SDJWTCredential")@);
            assert(("SDJWTCredential")@.len() == 15);
            assert(("VerifiableCredential")@.len() == 20);
            assert(rest[0] != ("VerifiableCredential")@);
            assert(chosen_type(rest) == Some(("SDJWTCredential")@));
            assert(chosen_type(ts) == chosen_type(ts.drop_first()));
        }
    }
    let mut vc = match create_credential(vc_request, kp) {
        Ok(c) => c,
        Err(e) => {
            return Err(e);
        },
    };
    let ghost before = vc@;
    vc.sd_jwt = Some(sd_jwt);
    vc.disclosures = Some(disclosures);
    proof {
        assert(CredentialModel { sd_jwt: None, disclosures: None, ..vc@ } == before);
    }
    Ok(vc)
}

/// Issue an SD-JWT credential and hand the artifacts back beside the
/// bare credential.
pub fn create_sd_jwt_vc(request: SDJWTCredentialRequest, kp: &KeyPair) -> (r: Result<
    SDJWTCredentialResponse,
    IssuerError,
>)
    requires
        kp.wf(),
    ensures
        r is Ok <==> (request.credential_subject@ is Object && subject_valid_parts(
            request.credential_subject@,
            registry_props(("SDJWTCredential")@),
            registry_reqs(("SDJWTCredential")@),
        )),
        match r {
            Ok(resp) => {
                &&& sd_jwt_issued_ok(
                    kp.public@,
                    kp.secret@,
                    request.credential_subject@,
                    resp.sd_jwt@,
                    resp.disclosures.deep_view(),
                )
                &&& resp.verifiable_credential@.sd_jwt is None
                &&& resp.verifiable_credential@.disclosures is None
                &&& issued_credential_ok(
                    kp.public@,
                    seq![("https://www.w3.org/2018/credentials/v1")@],
                    seq![("VerifiableCredential")@, ("SDJWTCredential")@],
                    request.credential_subject@,
                    resp.verifiable_credential@,
                )
            },
            Err(e) => e matches IssuerError::SchemaValidationError(_),
        },
{
    let mut vc = match create_sd_jwt_credential(request, kp) {
        Ok(c) => c,
        Err(e) => {
            return Err(e);
        },
    };
    let sd_jwt = match &vc.sd_jwt {
        Some(s) => s.clone(),
        None => {
            proof {
                assert(false);
            }
            return Err(IssuerError::SigningError(String::from_str("missing SD-JWT")));
        },
    };
    let disclosures = match &vc.disclosures {
        Some(d) => d.clone(),
        None => {
            proof {
                assert(false);
            }
            return Err(IssuerError::SigningError(String::from_str("missing disclosures")));
        },
    };
    vc.sd_jwt = None;
    vc.disclosures = None;
    Ok(SDJWTCredentialResponse { verifiable_credential: vc, sd_jwt, disclosures })
}

/// The issuer's public metadata.
pub fn get_metadata(kp: &KeyPair) -> (r: Result<IssuerMetadata, IssuerError>)
    requires
        kp.wf(),
    ensures
        match r {
            Ok(m) => {
                &&& m.id@ == ("did:example:123")@
                &&& m.name@ == ("Example University")@
                &&& m.public_key.id@ == ("did:example:123#key-1")@
                &&& m.public_key.key_type@ == ("Ed25519VerificationKey2020")@
                &&& m.public_key.public_key_multibase@ == seq!['z'] + crate::encoding::base58_of(
                    kp.public@,
                )
            },
            Err(_) => false,
        },
{
    let public_key_info = match get_public_key_info(kp) {
        Ok(info) => info,
        Err(e) => {
            return Err(IssuerError::UtilsError(e));
        },
    };
    Ok(
        IssuerMetadata {
            id: String::from_str("did:example:123"),
            name: String::from_str("Example University"),
            public_key: public_key_info,
        },
    )
}

} // verus!
