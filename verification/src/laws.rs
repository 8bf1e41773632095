//! The guarantees that tie the roles together, stated once over the
//! models and proved from the contracts of the functions they speak
//! about.

use vstd::prelude::*;
use crate::json::JsonModel;
use crate::canon::{canon, canon_string, similar, lemma_canon_similar, lemma_canon_idempotent};
use crate::models::credential::{CredentialModel, PresentationModel};
use crate::issuer::issuer::{vc_signed_credential, sd_jwt_issued_ok, sd_payload_ok_with};
use crate::holder::storage::{spec_store, spec_lookup};
use crate::holder::holder::presentation_signed_ok;
use crate::vc_verifier::verify::{credential_verifies, presentation_verifies,
    sd_credential_verifies, sd_digests_ok, json_top_level_key};
use crate::utils::crypto::json_msg_bytes;
use crate::utils::key_manager::ed25519_sign_of;
use crate::utils::sd_jwt::{disclosure_digest, disclosed_of};
use crate::encoding::base64url_decode_of;
use crate::strutil::dot_split;

verus! {

/// Sign-then-verify for embedded proofs: a credential the issuer
/// signed verifies under the public key of the pair that signed it.
pub proof fn lemma_issued_credential_verifies(pk: Seq<u8>, c: CredentialModel)
    requires
        c.sd_jwt is None,
        vc_signed_credential(pk, c),
    ensures
        credential_verifies(pk, c),
{
}

/// Sign-then-verify for SD-JWTs: an SD-JWT the issuer minted passes
/// the verifier together with its disclosures, provided the JSON
/// parser recognizes the serialized claim set — an object that carries
/// `_sd_alg` and commits every disclosure's digest under `_sd`, which
/// is how this library serializes it and what the end-to-end tests
/// exercise.
pub proof fn lemma_issued_sd_jwt_verifies(
    pk: Seq<u8>,
    secret: Seq<u8>,
    subject: JsonModel,
    jwt: Seq<char>,
    discs: Seq<Seq<char>>,
)
    requires
        sd_jwt_issued_ok(pk, secret, subject, jwt, discs),
        match base64url_decode_of(dot_split(jwt)[1]) {
            Some(payload) => json_top_level_key(payload, ("_sd_alg")@) == Some(true)
                && sd_digests_ok(payload, discs),
            None => false,
        },
    ensures
        sd_credential_verifies(pk, jwt, Some(discs)),
{
}

/// A freshly signed presentation with verifying credentials verifies
/// as a whole.
pub proof fn lemma_signed_presentation_verifies(
    pk: Seq<u8>,
    secret: Seq<u8>,
    p: PresentationModel,
    domain: Seq<char>,
    challenge: Seq<char>,
)
    requires
        presentation_signed_ok(pk, secret, p, domain, challenge),
        forall|i: int|
            0 <= i < p.verifiable_credential.len() ==> credential_verifies(
                pk,
                #[trigger] p.verifiable_credential[i],
            ),
    ensures
        presentation_verifies(pk, p),
{
}

/// Store-then-list: after a credential is stored under a fresh id, the
/// store holds it — it can be looked up under that id, and it stands
/// among the listed entries.
pub proof fn lemma_store_then_list(
    s: Seq<(Seq<char>, CredentialModel)>,
    id: Seq<char>,
    c: CredentialModel,
)
    ensures
        spec_lookup(spec_store(s, id, c), id) == Some(c),
        exists|i: int|
            0 <= i < spec_store(s, id, c).len() && #[trigger] spec_store(s, id, c)[i] == (id, c),
    decreases s.len(),
{
    if s.len() == 0 {
        assert(spec_store(s, id, c)[0] == (id, c));
    } else if s[0].0 == id {
        assert(spec_store(s, id, c)[0] == (id, c));
    } else {
        lemma_store_then_list(s.drop_first(), id, c);
        let rest = spec_store(s.drop_first(), id, c);
        assert(spec_store(s, id, c) == seq![s[0]] + rest);
        assert(spec_lookup(seq![s[0]] + rest, id) == spec_lookup(
            (seq![s[0]] + rest).drop_first(),
            id,
        ));
        assert((seq![s[0]] + rest).drop_first() =~= rest);
        let i = choose|i: int| 0 <= i < rest.len() && #[trigger] rest[i] == (id, c);
        assert(spec_store(s, id, c)[i + 1] == (id, c));
    }
}

/// Key order does not change the signature: two subjects that differ
/// only in the order of their object entries sign to the same bytes,
/// so the deterministic Ed25519 signature — and with it the encoded
/// `proofValue` — is the same.
pub proof fn lemma_key_order_signature(m1: JsonModel, m2: JsonModel, secret: Seq<u8>)
    requires
        m1.wf(),
        similar(m1, m2),
    ensures
        canon_string(m1) == canon_string(m2),
        ed25519_sign_of(secret, json_msg_bytes(m1)) == ed25519_sign_of(
            secret,
            json_msg_bytes(m2),
        ),
{
    lemma_canon_similar(m1, m2);
}

/// Canonicalization is idempotent, so the serialized canonical form is
/// stable under a second pass.
pub proof fn lemma_canonical_string_stable(m: JsonModel)
    requires
        m.wf(),
    ensures
        canon_string(canon(m)) == canon_string(m),
{
    lemma_canon_idempotent(m);
}

/// Every disclosure handed out with an SD-JWT has its digest among the
/// values of the `_sd` map, under its own claim name.
pub proof fn lemma_sd_digests_present(
    subject: JsonModel,
    keys: Seq<Seq<char>>,
    payload: JsonModel,
    discs: Seq<Seq<char>>,
    iat: int,
    sd_entries: Seq<(Seq<char>, JsonModel)>,
)
    requires
        sd_payload_ok_with(subject, keys, payload, discs, iat, sd_entries),
    ensures
        discs.len() == sd_entries.len(),
        forall|i: int|
            #![trigger discs[i]]
            0 <= i < discs.len() ==> sd_entries[i].1 == JsonModel::Str(
                disclosure_digest(discs[i]),
            ),
        sd_entries.len() == disclosed_of(subject->Object_0, keys).len(),
        forall|j: int|
            0 <= j < sd_entries.len() ==> (#[trigger] sd_entries[j]).0 == disclosed_of(
                subject->Object_0,
                keys,
            )[j].0,
{
    assert forall|i: int| #![trigger discs[i]] 0 <= i < discs.len() implies sd_entries[i].1
        == JsonModel::Str(disclosure_digest(discs[i])) by {
        assert(sd_entries[i].1 == JsonModel::Str(disclosure_digest(discs[i])));
    }
}

} // verus!
