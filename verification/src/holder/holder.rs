//! The holder: it keeps issued credentials and assembles signed
//! presentations from them. The presentation is signed before `domain`
//! and `challenge` are written into its proof, so those two fields ride
//! outside the signature.

use vstd::prelude::*;
use crate::json::{JsonModel, JsonValue, JsonEntry, jm_of, jm_of_entries, lemma_jm_of_entries_index};
use crate::models::credential::{CredentialResponse, PresentationRequest, VerifiablePresentation,
    PresentationModel, lemma_presentation_json_no_sd_alg};
use crate::holder::storage::{Storage, spec_store, spec_lookup};
use crate::utils::crypto::{sign_json, vc_proof_model, vc_signature_good, json_msg_bytes,
    lemma_proof_value_extended, proof_value_of};
use crate::utils::key_manager::{KeyPair, ed25519_sign_of};
use crate::encoding::base58_of;
use crate::sys::uuid_v4_string;

verus! {

/// What the holder's signature on a presentation looks like: the
/// standard proof object over the unproofed presentation, with the
/// requested domain and challenge appended after signing.
pub open spec fn presentation_signed_ok(
    pk: Seq<u8>,
    secret: Seq<u8>,
    p: PresentationModel,
    domain: Seq<char>,
    challenge: Seq<char>,
) -> bool {
    match p.proof {
        Some(pr) => {
            &&& exists|created: Seq<char>|
                pr == JsonModel::Object(
                    vc_proof_model(
                        created,
                        base58_of(
                            ed25519_sign_of(secret, json_msg_bytes(p.without_proof().spec_json())),
                        ),
                    )->Object_0 + seq![
                        (("domain")@, JsonModel::Str(domain)),
                        (("challenge")@, JsonModel::Str(challenge)),
                    ],
                )
            &&& vc_signature_good(pk, p.without_proof().spec_json(), pr)
        },
        None => false,
    }
}

/// A holder over some credential store.
pub struct Holder<S: Storage> {
    pub storage: S,
}

impl<S: Storage> Holder<S> {
    pub fn new(storage: S) -> (r: Self)
        ensures
            r.storage == storage,
    {
        Holder { storage }
    }

    /// Store a credential under a freshly minted id.
    pub fn store_credential(&mut self, credential: CredentialResponse) -> (r: Result<
        String,
        String,
    >)
        ensures
            match r {
                Ok(id) => id@.len() == 36 && final(self).storage.contents() == spec_store(
                    old(self).storage.contents(),
                    id@,
                    credential@,
                ),
                Err(_) => final(self).storage.contents() == old(self).storage.contents(),
            },
    {
        let id = uuid_v4_string();
        match self.storage.store(id.clone(), credential) {
            Ok(_) => Ok(id),
            Err(e) => Err(e),
        }
    }

    /// Everything the holder has stored.
    pub fn get_credentials(&self) -> (r: Result<Vec<CredentialResponse>, String>)
        ensures
            match r {
                Ok(v) => v@.len() == self.storage.contents().len() && (forall|i: int|
                    0 <= i < v@.len() ==> (#[trigger] v@[i])@ == self.storage.contents()[i].1),
                Err(_) => true,
            },
    {
        self.storage.get_all()
    }

    /// Assemble and sign a presentation from stored credentials.
    #[verifier::loop_isolation(false)]
    pub fn create_presentation(&self, request: PresentationRequest, kp: &KeyPair) -> (r: Result<
        VerifiablePresentation,
        String,
    >)
        requires
            kp.wf(),
        ensures
            match r {
                Ok(p) => {
                    &&& p@.context == seq![("https://www.w3.org/2018/credentials/v1")@]
                    &&& p@.types == seq![("VerifiablePresentation")@]
                    &&& p@.verifiable_credential.len()
                        == request.verifiable_credential@.len()
                    &&& forall|i: int|
                        0 <= i < p@.verifiable_credential.len() ==> spec_lookup(
                            self.storage.contents(),
                            request.verifiable_credential@[i]@,
                        ) == Some(#[trigger] p@.verifiable_credential[i])
                    &&& presentation_signed_ok(
                        kp.public@,
                        kp.secret@,
                        p@,
                        request.domain@,
                        request.challenge@,
                    )
                },
                Err(_) => true,
            },
            (exists|i: int|
                0 <= i < request.verifiable_credential@.len() && spec_lookup(
                    self.storage.contents(),
                    (#[trigger] request.verifiable_credential@[i])@,
                ) is None) ==> r is Err,
    {
        let mut selected: Vec<CredentialResponse> = Vec::new();
        let n = request.verifiable_credential.len();
        let mut i: usize = 0;
        while i < n
            invariant
                i <= n,
                selected@.len() == i,
                forall|j: int|
                    0 <= j < i ==> spec_lookup(
                        self.storage.contents(),
                        request.verifiable_credential@[j]@,
                    ) == Some((#[trigger] selected@[j])@),
            decreases n - i,
        {
            match self.storage.get(request.verifiable_credential[i].as_str()) {
                Ok(Some(credential)) => {
                    selected.push(credential);
                },
                Ok(None) => {
                    let mut msg = String::from_str("Credential with id ");
                    msg.append(request.verifiable_credential[i].as_str());
                    msg.append(" not found");
                    return Err(msg);
                },
                Err(e) => {
                    return Err(e);
                },
            }
            i = i + 1;
        }
        proof {
            assert forall|k: int| 0 <= k < request.verifiable_credential@.len() implies !(
            spec_lookup(
                self.storage.contents(),
                (#[trigger] request.verifiable_credential@[k])@,
            ) is None) by {
                assert(spec_lookup(self.storage.contents(), request.verifiable_credential@[k]@)
                    == Some(selected@[k]@));
            }
        }
        let mut context: Vec<String> = Vec::new();
        context.push(String::from_str("https://www.w3.org/2018/credentials/v1"));
        let mut types: Vec<String> = Vec::new();
        types.push(String::from_str("VerifiablePresentation"));
        let mut presentation = VerifiablePresentation {
            context,
            types,
            verifiable_credential: selected,
            proof: None,
        };
        proof {
            assert(presentation@.context =~= seq![("https://www.w3.org/2018/credentials/v1")@]);
            assert(presentation@.types =~= seq![("VerifiablePresentation")@]);
        }
        let ghost unproofed = presentation@;
        let presentation_json = presentation.to_json();
        proof {
            lemma_presentation_json_no_sd_alg(presentation@);
        }
        let proof_value = match sign_json(&presentation_json, kp) {
            Ok(v) => v,
            Err(_) => {
                return Err(String::from_str("Failed to create proof"));
            },
        };
        let proof_entries = match proof_value {
            JsonValue::Object(es) => es,
            _ => {
                proof {
                    assert(false);
                }
                return Err(String::from_str("Failed to create proof"));
            },
        };
        let ghost pe = proof_entries@;
        let ghost base = jm_of_entries(pe);
        let mut extended = proof_entries;
        extended.push(
            JsonEntry {
                key: String::from_str("domain"),
                value: JsonValue::Str(request.domain.clone()),
            },
        );
        extended.push(
            JsonEntry {
                key: String::from_str("challenge"),
                value: JsonValue::Str(request.challenge.clone()),
            },
        );
        let ghost ees = extended@;
        let proof_obj = JsonValue::Object(extended);
        proof {
            lemma_jm_of_entries_index(ees);
            lemma_jm_of_entries_index(pe);
            let created = choose|created: Seq<char>|
                proof_value@ == vc_proof_model(
                    created,
                    base58_of(ed25519_sign_of(kp.secret@, json_msg_bytes(unproofed.spec_json()))),
                );
            let pv = base58_of(ed25519_sign_of(kp.secret@, json_msg_bytes(unproofed.spec_json())));
            assert(base == vc_proof_model(created, pv)->Object_0);
            assert(jm_of_entries(ees) =~= base + seq![
                (("domain")@, JsonModel::Str(request.domain@)),
                (("challenge")@, JsonModel::Str(request.challenge@)),
            ]);
            lemma_proof_value_extended(
                created,
                pv,
                seq![
                    (("domain")@, JsonModel::Str(request.domain@)),
                    (("challenge")@, JsonModel::Str(request.challenge@)),
                ],
            );
            crate::utils::crypto::lemma_vc_proof_model_props(created, pv);
            assert(proof_value_of(jm_of(proof_obj)) == Some(pv));
            assert(proof_value_of(proof_value@) == Some(pv));
            assert(vc_signature_good(kp.public@, unproofed.spec_json(), jm_of(proof_obj)));
        }
        presentation.proof = Some(proof_obj);
        proof {
            assert(presentation@.without_proof() == unproofed);
        }
        Ok(presentation)
    }
}

} // verus!
