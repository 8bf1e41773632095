//! The issuer's schema registry and the schema check a credential
//! subject must pass before signing.

use vstd::prelude::*;
use crate::json::{JsonModel, JsonValue};
use crate::models::schema::{CredentialSchema, PropertyType, kind_matches, props_has, props_get,
    lemma_props_get_skip};
use crate::issuer::error::IssuerError;
use crate::strutil::eq_str;

verus! {

/// The credential types this issuer can mint.
pub open spec fn known_type(t: Seq<char>) -> bool {
    t == ("UniversityDegreeCredential")@ || t == ("SDJWTCredential")@
}

/// The property table the registry assigns to a known type.
pub open spec fn registry_props(t: Seq<char>) -> Seq<(Seq<char>, PropertyType)> {
    if t == ("UniversityDegreeCredential")@ {
        seq![
            (("id")@, PropertyType::String),
            (("name")@, PropertyType::String),
            (("degree")@, PropertyType::Object),
        ]
    } else {
        seq![
            (("id")@, PropertyType::String),
            (("given_name")@, PropertyType::String),
            (("family_name")@, PropertyType::String),
            (("email")@, PropertyType::String),
            (("birthdate")@, PropertyType::String),
            (("degree")@, PropertyType::Object),
        ]
    }
}

/// The required names the registry assigns to a known type.
pub open spec fn registry_reqs(t: Seq<char>) -> Seq<Seq<char>> {
    if t == ("UniversityDegreeCredential")@ {
        seq![("name")@, ("degree")@]
    } else {
        seq![("given_name")@, ("family_name")@]
    }
}

/// Look a credential type up in the issuer's registry.
pub fn get_schema(credential_type: &str) -> (r: Option<CredentialSchema>)
    ensures
        r is Some <==> known_type(credential_type@),
        match r {
            Some(s) => {
                &&& s.credential_type@ == credential_type@
                &&& s.id@ == credential_type@
                &&& s.props() == registry_props(credential_type@)
                &&& s.reqs() == registry_reqs(credential_type@)
            },
            None => true,
        },
{
    if eq_str(credential_type, "UniversityDegreeCredential") {
        let mut properties: Vec<(String, PropertyType)> = Vec::new();
        properties.push((String::from_str("id"), PropertyType::String));
        properties.push((String::from_str("name"), PropertyType::String));
        properties.push((String::from_str("degree"), PropertyType::Object));
        let mut required: Vec<String> = Vec::new();
        required.push(String::from_str("name"));
        required.push(String::from_str("degree"));
        let s = CredentialSchema {
            id: String::from_str("UniversityDegreeCredential"),
            credential_type: String::from_str("UniversityDegreeCredential"),
            properties,
            required,
        };
        proof {
            assert(s.props() =~= registry_props(credential_type@));
            assert(s.reqs() =~= registry_reqs(credential_type@));
        }
        Some(s)
    } else if eq_str(credential_type, "SDJWTCredential") {
        let mut properties: Vec<(String, PropertyType)> = Vec::new();
        properties.push((String::from_str("id"), PropertyType::String));
        properties.push((String::from_str("given_name"), PropertyType::String));
        properties.push((String::from_str("family_name"), PropertyType::String));
        properties.push((String::from_str("email"), PropertyType::String));
        properties.push((String::from_str("birthdate"), PropertyType::String));
        properties.push((String::from_str("degree"), PropertyType::Object));
        let mut required: Vec<String> = Vec::new();
        required.push(String::from_str("given_name"));
        required.push(String::from_str("family_name"));
        let s = CredentialSchema {
            id: String::from_str("SDJWTCredential"),
            credential_type: String::from_str("SDJWTCredential"),
            properties,
            required,
        };
        proof {
            reveal_strlit("UniversityDegreeCredential");
            reveal_strlit("SDJWTCredential");
            assert(s.props() =~= registry_props(credential_type@));
            assert(s.reqs() =~= registry_reqs(credential_type@));
        }
        Some(s)
    } else {
        None
    }
}

/// Whether a subject satisfies a property table and required list:
/// it is an object, every required field is present, and every present
/// field is known with a matching kind.
pub open spec fn subject_valid_parts(
    subject: JsonModel,
    props: Seq<(Seq<char>, PropertyType)>,
    reqs: Seq<Seq<char>>,
) -> bool {
    &&& subject is Object
    &&& forall|i: int| 0 <= i < reqs.len() ==> subject.has_key(#[trigger] reqs[i])
    &&& forall|i: int|
        0 <= i < subject->Object_0.len() ==> {
            &&& props_has(props, (#[trigger] subject->Object_0[i]).0)
            &&& kind_matches(props_get(props, subject->Object_0[i].0), subject->Object_0[i].1)
        }
}

/// Whether a subject satisfies a schema.
pub open spec fn subject_valid(subject: JsonModel, schema: CredentialSchema) -> bool {
    subject_valid_parts(subject, schema.props(), schema.reqs())
}

/// The kind the schema assigns to `name`, if it knows the name.
fn lookup_prop(schema: &CredentialSchema, name: &str) -> (r: Option<PropertyType>)
    ensures
        match r {
            Some(k) => props_has(schema.props(), name@) && k == props_get(schema.props(), name@),
            None => !props_has(schema.props(), name@),
        },
{
    let n = schema.properties.len();
    let mut i: usize = 0;
    while i < n
        invariant
            i <= n,
            n == schema.properties@.len(),
            forall|j: int| 0 <= j < i ==> (#[trigger] schema.properties@[j]).0@ != name@,
        decreases n - i,
    {
        if eq_str(schema.properties[i].0.as_str(), name) {
            proof {
                lemma_props_get_skip(schema.props(), name@, i as int);
                assert(schema.props().skip(i as int)[0] == schema.props()[i as int]);
            }
            return Some(schema.properties[i].1);
        }
        i = i + 1;
    }
    None
}

/// Whether a JSON value is of the given kind.
fn kind_ok(t: PropertyType, v: &JsonValue) -> (r: bool)
    ensures
        r == kind_matches(t, v@),
{
    match (t, v) {
        (PropertyType::String, JsonValue::Str(_)) => true,
        (PropertyType::Number, JsonValue::Int(_)) => true,
        (PropertyType::Boolean, JsonValue::Bool(_)) => true,
        (PropertyType::Object, JsonValue::Object(_)) => true,
        (PropertyType::Array, JsonValue::Array(_)) => true,
        _ => false,
    }
}

/// Schema-check a credential subject: required fields first, then the
/// shape of every present field.
#[verifier::loop_isolation(false)]
pub fn validate_credential_subject(subject: &JsonValue, schema: &CredentialSchema) -> (r: Result<
    (),
    IssuerError,
>)
    ensures
        r is Ok <==> subject_valid(subject@, *schema),
        match r {
            Ok(_) => true,
            Err(e) => match e {
                IssuerError::SchemaValidationError(msg) => {
                    ||| exists|i: int|
                        0 <= i < schema.reqs().len() && !subject@.has_key(
                            #[trigger] schema.reqs()[i],
                        ) && msg@ == ("Missing required field: ")@ + schema.reqs()[i]
                    ||| (!(subject@ is Object) && msg@ == ("Invalid subject format")@)
                    ||| exists|i: int|
                        0 <= i < subject@->Object_0.len() && !props_has(
                            schema.props(),
                            (#[trigger] subject@->Object_0[i]).0,
                        ) && msg@ == ("Unknown field: ")@ + subject@->Object_0[i].0
                    ||| exists|i: int|
                        0 <= i < subject@->Object_0.len() && props_has(
                            schema.props(),
                            (#[trigger] subject@->Object_0[i]).0,
                        ) && !kind_matches(
                            props_get(schema.props(), subject@->Object_0[i].0),
                            subject@->Object_0[i].1,
                        ) && msg@ == ("Invalid type for field: ")@ + subject@->Object_0[i].0
                },
                _ => false,
            },
        },
{
    let nr = schema.required.len();
    let mut i: usize = 0;
    while i < nr
        invariant
            i <= nr,
            forall|j: int| 0 <= j < i ==> subject@.has_key(#[trigger] schema.reqs()[j]),
        decreases nr - i,
    {
        if !subject.has_key(schema.required[i].as_str()) {
            let mut msg = String::from_str("Missing required field: ");
            msg.append(schema.required[i].as_str());
            proof {
                assert(!subject@.has_key(schema.reqs()[i as int]));
                assert(msg@ == ("Missing required field: ")@ + schema.reqs()[i as int]);
            }
            return Err(IssuerError::SchemaValidationError(msg));
        }
        i = i + 1;
    }
    let entries = match subject {
        JsonValue::Object(entries) => entries,
        _ => {
            return Err(
                IssuerError::SchemaValidationError(String::from_str("Invalid subject format")),
            );
        },
    };
    proof {
        crate::json::lemma_jm_of_entries_index(entries@);
    }
    let n = entries.len();
    let mut k: usize = 0;
    while k < n
        invariant
            k <= n,
            forall|j: int|
                0 <= j < k ==> {
                    &&& props_has(schema.props(), (#[trigger] subject@->Object_0[j]).0)
                    &&& kind_matches(
                        props_get(schema.props(), subject@->Object_0[j].0),
                        subject@->Object_0[j].1,
                    )
                },
        decreases n - k,
    {
        match lookup_prop(schema, entries[k].key.as_str()) {
            Some(t) => {
                if !kind_ok(t, &entries[k].value) {
                    let mut msg = String::from_str("Invalid type for field: ");
                    msg.append(entries[k].key.as_str());
                    proof {
                        assert(subject@->Object_0[k as int] == (entries@[k as int].key@, crate::json::jm_of(entries@[k as int].value)));
                        assert(!kind_matches(props_get(schema.props(), subject@->Object_0[k as int].0), subject@->Object_0[k as int].1));
                        assert(msg@ == ("Invalid type for field: ")@ + subject@->Object_0[k as int].0);
                    }
                    return Err(IssuerError::SchemaValidationError(msg));
                }
            },
            None => {
                let mut msg = String::from_str("Unknown field: ");
                msg.append(entries[k].key.as_str());
                proof {
                    assert(subject@->Object_0[k as int] == (entries@[k as int].key@, crate::json::jm_of(entries@[k as int].value)));
                    assert(!props_has(schema.props(), subject@->Object_0[k as int].0));
                    assert(msg@ == ("Unknown field: ")@ + subject@->Object_0[k as int].0);
                }
                return Err(IssuerError::SchemaValidationError(msg));
            },
        }
        k = k + 1;
    }
    Ok(())
}

} // verus!
