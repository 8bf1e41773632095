//! Credential and presentation shapes, with their mathematical models
//! and the JSON form each takes when it is serialized for signing or
//! transport.

use vstd::prelude::*;
use crate::json::{JsonModel, JsonValue, JsonEntry, jm_of_seq, jm_of_entries,
    lemma_jm_of_seq_index, lemma_jm_of_entries_index};

verus! {

/// The models of a list of strings, as JSON strings.
pub open spec fn str_models(v: Seq<Seq<char>>) -> Seq<JsonModel> {
    Seq::new(v.len(), |i: int| JsonModel::Str(v[i]))
}

/// A JSON array of the given strings.
pub fn strings_to_json(v: &Vec<String>) -> (r: JsonValue)
    ensures
        r@ == JsonModel::Array(str_models(v.deep_view())),
{
    let mut items: Vec<JsonValue> = Vec::new();
    let n = v.len();
    let mut i: usize = 0;
    while i < n
        invariant
            i <= n,
            n == v@.len(),
            items@.len() == i,
            forall|j: int| 0 <= j < i ==> (#[trigger] items@[j])@ == JsonModel::Str(v@[j]@),
        decreases n - i,
    {
        items.push(JsonValue::Str(v[i].clone()));
        i = i + 1;
    }
    proof {
        lemma_jm_of_seq_index(items@);
        assert(jm_of_seq(items@) =~= str_models(v.deep_view()));
    }
    JsonValue::Array(items)
}

/// What a client sends to have a credential issued.
pub struct CredentialRequest {
    pub context: Vec<String>,
    pub types: Vec<String>,
    pub issuer: String,
    pub issuance_date: String,
    pub credential_subject: JsonValue,
}

/// The mathematical shape of a credential.
pub struct CredentialModel {
    pub context: Seq<Seq<char>>,
    pub id: Option<Seq<char>>,
    pub types: Seq<Seq<char>>,
    pub issuer: Seq<char>,
    pub issuance_date: Seq<char>,
    pub credential_subject: JsonModel,
    pub proof: Option<JsonModel>,
    pub sd_jwt: Option<Seq<char>>,
    pub disclosures: Option<Seq<Seq<char>>>,
}

impl CredentialModel {
    /// The parts of the credential that JSON object values must meet.
    pub open spec fn wf(self) -> bool {
        &&& self.credential_subject.wf()
        &&& match self.proof {
            Some(p) => p.wf(),
            None => true,
        }
    }

    /// The credential as a JSON object, fields in their serialized
    /// order, optional fields present only when set.
    pub open spec fn spec_json(self) -> JsonModel {
        JsonModel::Object(
            seq![(("@context")@, JsonModel::Array(str_models(self.context)))] + (match self.id {
                Some(id) => seq![(("id")@, JsonModel::Str(id))],
                None => Seq::empty(),
            }) + seq![(("type")@, JsonModel::Array(str_models(self.types)))] + seq![
                (("issuer")@, JsonModel::Str(self.issuer)),
            ] + seq![(("issuanceDate")@, JsonModel::Str(self.issuance_date))] + seq![
                (("credentialSubject")@, self.credential_subject),
            ] + (match self.proof {
                Some(p) => seq![(("proof")@, p)],
                None => Seq::empty(),
            }) + (match self.sd_jwt {
                Some(s) => seq![(("sd_jwt")@, JsonModel::Str(s))],
                None => Seq::empty(),
            }) + (match self.disclosures {
                Some(d) => seq![(("disclosures")@, JsonModel::Array(str_models(d)))],
                None => Seq::empty(),
            }),
        )
    }

    /// The same credential with the proof taken out.
    pub open spec fn without_proof(self) -> CredentialModel {
        CredentialModel { proof: None, ..self }
    }
}

/// No credential object carries the SD-JWT marker at top level: its
/// keys are fixed, and none of them is `_sd_alg`.
pub proof fn lemma_credential_json_no_sd_alg(c: CredentialModel)
    ensures
        !c.spec_json().has_key(("_sd_alg")@),
{
    reveal_strlit("@context");
    reveal_strlit("id");
    reveal_strlit("type");
    reveal_strlit("issuer");
    reveal_strlit("issuanceDate");
    reveal_strlit("credentialSubject");
    reveal_strlit("proof");
    reveal_strlit("sd_jwt");
    reveal_strlit("disclosures");
    reveal_strlit("_sd_alg");
    let e = c.spec_json()->Object_0;
    assert forall|i: int| 0 <= i < e.len() implies (#[trigger] e[i]).0 != ("_sd_alg")@ by {
        assert(e[i].0.len() != 7);
    }
}

/// A credential as issued, stored and verified.
pub struct CredentialResponse {
    pub context: Vec<String>,
    pub id: Option<String>,
    pub types: Vec<String>,
    pub issuer: String,
    pub issuance_date: String,
    pub credential_subject: JsonValue,
    pub proof: Option<JsonValue>,
    pub sd_jwt: Option<String>,
    pub disclosures: Option<Vec<String>>,
}

impl View for CredentialResponse {
    type V = CredentialModel;

    open spec fn view(&self) -> CredentialModel {
        CredentialModel {
            context: self.context.deep_view(),
            id: match self.id {
                Some(ref s) => Some(s@),
                None => None,
            },
            types: self.types.deep_view(),
            issuer: self.issuer@,
            issuance_date: self.issuance_date@,
            credential_subject: self.credential_subject@,
            proof: match self.proof {
                Some(ref p) => Some(p@),
                None => None,
            },
            sd_jwt: match self.sd_jwt {
                Some(ref s) => Some(s@),
                None => None,
            },
            disclosures: match self.disclosures {
                Some(ref d) => Some(d.deep_view()),
                None => None,
            },
        }
    }
}

impl DeepView for CredentialResponse {
    type V = CredentialModel;

    open spec fn deep_view(&self) -> CredentialModel {
        self.view()
    }
}

impl Clone for CredentialResponse {
    fn clone(&self) -> (res: Self)
        ensures
            res@ == self@,
    {
        let res = CredentialResponse {
            context: self.context.clone(),
            id: match &self.id {
                Some(s) => Some(s.clone()),
                None => None,
            },
            types: self.types.clone(),
            issuer: self.issuer.clone(),
            issuance_date: self.issuance_date.clone(),
            credential_subject: self.credential_subject.clone(),
            proof: match &self.proof {
                Some(p) => Some(p.clone()),
                None => None,
            },
            sd_jwt: match &self.sd_jwt {
                Some(s) => Some(s.clone()),
                None => None,
            },
            disclosures: match &self.disclosures {
                Some(d) => Some(d.clone()),
                None => None,
            },
        };
        proof {
            assert(res.context.deep_view() =~~= self.context.deep_view());
            assert(res.types.deep_view() =~~= self.types.deep_view());
            match (&res.disclosures, &self.disclosures) {
                (Some(a), Some(b)) => {
                    assert(a.deep_view() =~~= b.deep_view());
                },
                _ => {},
            }
        }
        res
    }
}

impl CredentialResponse {
    /// The credential as a JSON object.
    pub fn to_json(&self) -> (r: JsonValue)
        ensures
            r@ == self@.spec_json(),
    {
        let mut entries: Vec<JsonEntry> = Vec::new();
        entries.push(
            JsonEntry { key: String::from_str("@context"), value: strings_to_json(&self.context) },
        );
        match &self.id {
            Some(id) => {
                entries.push(JsonEntry { key: String::from_str("id"), value: JsonValue::Str(id.clone()) });
            },
            None => {},
        }
        entries.push(
            JsonEntry { key: String::from_str("type"), value: strings_to_json(&self.types) },
        );
        entries.push(
            JsonEntry { key: String::from_str("issuer"), value: JsonValue::Str(self.issuer.clone()) },
        );
        entries.push(
            JsonEntry {
                key: String::from_str("issuanceDate"),
                value: JsonValue::Str(self.issuance_date.clone()),
            },
        );
        entries.push(
            JsonEntry {
                key: String::from_str("credentialSubject"),
                value: self.credential_subject.clone(),
            },
        );
        match &self.proof {
            Some(p) => {
                entries.push(JsonEntry { key: String::from_str("proof"), value: p.clone() });
            },
            None => {},
        }
        match &self.sd_jwt {
            Some(s) => {
                entries.push(
                    JsonEntry { key: String::from_str("sd_jwt"), value: JsonValue::Str(s.clone()) },
                );
            },
            None => {},
        }
        match &self.disclosures {
            Some(d) => {
                entries.push(
                    JsonEntry { key: String::from_str("disclosures"), value: strings_to_json(d) },
                );
            },
            None => {},
        }
        proof {
            lemma_jm_of_entries_index(entries@);
            assert(jm_of_entries(entries@) =~~= self@.spec_json()->Object_0);
        }
        JsonValue::Object(entries)
    }

    /// A copy with the proof taken out, as verification serializes it.
    pub fn without_proof(&self) -> (r: CredentialResponse)
        ensures
            r@ == self@.without_proof(),
    {
        let mut r = self.clone();
        r.proof = None;
        r
    }
}

/// Issuer metadata served to clients.
pub struct IssuerMetadata {
    pub id: String,
    pub name: String,
    pub public_key: PublicKeyInfo,
}

/// The issuer's public key, multibase-encoded.
pub struct PublicKeyInfo {
    pub id: String,
    pub key_type: String,
    pub public_key_multibase: String,
}

/// What a client sends to have a presentation assembled: stored
/// credential ids, a domain and a challenge.
pub struct PresentationRequest {
    pub verifiable_credential: Vec<String>,
    pub domain: String,
    pub challenge: String,
}

/// The mathematical shape of a presentation.
pub struct PresentationModel {
    pub context: Seq<Seq<char>>,
    pub types: Seq<Seq<char>>,
    pub verifiable_credential: Seq<CredentialModel>,
    pub proof: Option<JsonModel>,
}

impl PresentationModel {
    pub open spec fn wf(self) -> bool {
        &&& forall|i: int|
            0 <= i < self.verifiable_credential.len() ==> (
            #[trigger] self.verifiable_credential[i]).wf()
        &&& match self.proof {
            Some(p) => p.wf(),
            None => true,
        }
    }

    /// The presentation as a JSON object, embedded credentials
    /// serialized whole.
    pub open spec fn spec_json(self) -> JsonModel {
        JsonModel::Object(
            seq![(("@context")@, JsonModel::Array(str_models(self.context)))] + seq![
                (("type")@, JsonModel::Array(str_models(self.types))),
            ] + seq![
                (
                    ("verifiableCredential")@,
                    JsonModel::Array(
                        Seq::new(
                            self.verifiable_credential.len(),
                            |i: int| self.verifiable_credential[i].spec_json(),
                        ),
                    ),
                ),
            ] + (match self.proof {
                Some(p) => seq![(("proof")@, p)],
                None => Seq::empty(),
            }),
        )
    }

    /// The same presentation with the proof taken out.
    pub open spec fn without_proof(self) -> PresentationModel {
        PresentationModel { proof: None, ..self }
    }
}

/// No presentation object carries the SD-JWT marker at top level.
pub proof fn lemma_presentation_json_no_sd_alg(p: PresentationModel)
    ensures
        !p.spec_json().has_key(("_sd_alg")@),
{
    reveal_strlit("@context");
    reveal_strlit("type");
    reveal_strlit("verifiableCredential");
    reveal_strlit("proof");
    reveal_strlit("_sd_alg");
    let e = p.spec_json()->Object_0;
    assert forall|i: int| 0 <= i < e.len() implies (#[trigger] e[i]).0 != ("_sd_alg")@ by {
        assert(e[i].0.len() != 7);
    }
}

/// A signed presentation wrapping one or more credentials.
pub struct VerifiablePresentation {
    pub context: Vec<String>,
    pub types: Vec<String>,
    pub verifiable_credential: Vec<CredentialResponse>,
    pub proof: Option<JsonValue>,
}

impl View for VerifiablePresentation {
    type V = PresentationModel;

    open spec fn view(&self) -> PresentationModel {
        PresentationModel {
            context: self.context.deep_view(),
            types: self.types.deep_view(),
            verifiable_credential: self.verifiable_credential.deep_view(),
            proof: match self.proof {
                Some(ref p) => Some(p@),
                None => None,
            },
        }
    }
}

impl Clone for VerifiablePresentation {
    fn clone(&self) -> (res: Self)
        ensures
            res@ == self@,
    {
        let mut creds: Vec<CredentialResponse> = Vec::new();
        let n = self.verifiable_credential.len();
        let mut i: usize = 0;
        while i < n
            invariant
                i <= n,
                n == self.verifiable_credential@.len(),
                creds@.len() == i,
                forall|j: int|
                    0 <= j < i ==> (#[trigger] creds@[j])@ == self.verifiable_credential@[j]@,
            decreases n - i,
        {
            creds.push(self.verifiable_credential[i].clone());
            i = i + 1;
        }
        let res = VerifiablePresentation {
            context: self.context.clone(),
            types: self.types.clone(),
            verifiable_credential: creds,
            proof: match &self.proof {
                Some(p) => Some(p.clone()),
                None => None,
            },
        };
        proof {
            assert(res.context.deep_view() =~~= self.context.deep_view());
            assert(res.types.deep_view() =~~= self.types.deep_view());
            assert(res.verifiable_credential.deep_view() =~~= self.verifiable_credential.deep_view());
        }
        res
    }
}

impl VerifiablePresentation {
    /// The presentation as a JSON object.
    pub fn to_json(&self) -> (r: JsonValue)
        ensures
            r@ == self@.spec_json(),
    {
        let mut creds: Vec<JsonValue> = Vec::new();
        let n = self.verifiable_credential.len();
        let mut i: usize = 0;
        while i < n
            invariant
                i <= n,
                n == self.verifiable_credential@.len(),
                creds@.len() == i,
                forall|j: int|
                    0 <= j < i ==> (#[trigger] creds@[j])@
                        == self.verifiable_credential@[j]@.spec_json(),
            decreases n - i,
        {
            creds.push(self.verifiable_credential[i].to_json());
            i = i + 1;
        }
        let mut entries: Vec<JsonEntry> = Vec::new();
        entries.push(
            JsonEntry { key: String::from_str("@context"), value: strings_to_json(&self.context) },
        );
        entries.push(
            JsonEntry { key: String::from_str("type"), value: strings_to_json(&self.types) },
        );
        proof {
            lemma_jm_of_seq_index(creds@);
            assert(jm_of_seq(creds@) =~= Seq::new(
                self@.verifiable_credential.len(),
                |i: int| self@.verifiable_credential[i].spec_json(),
            ));
        }
        entries.push(
            JsonEntry {
                key: String::from_str("verifiableCredential"),
                value: JsonValue::Array(creds),
            },
        );
        match &self.proof {
            Some(p) => {
                entries.push(JsonEntry { key: String::from_str("proof"), value: p.clone() });
            },
            None => {},
        }
        proof {
            lemma_jm_of_entries_index(entries@);
            assert(jm_of_entries(entries@) =~~= self@.spec_json()->Object_0);
        }
        JsonValue::Object(entries)
    }

    /// A copy with the proof taken out, as verification serializes it.
    pub fn without_proof(&self) -> (r: VerifiablePresentation)
        ensures
            r@ == self@.without_proof(),
    {
        let mut r = self.clone();
        r.proof = None;
        r
    }
}

} // verus!
