//! A small standalone schema catalogue: university degrees and
//! employment credentials.

use vstd::prelude::*;
use crate::models::schema::{CredentialSchema, PropertyType};

verus! {

pub fn get_university_degree_schema() -> (r: CredentialSchema)
    ensures
        r.id@ == ("http://example.edu/schemas/degree.json")@,
        r.credential_type@ == ("UniversityDegreeCredential")@,
        r.props() == seq![
            (("id")@, PropertyType::String),
            (("degree")@, PropertyType::Object),
        ],
        r.reqs() == seq![("id")@, ("degree")@],
{
    let mut properties: Vec<(String, PropertyType)> = Vec::new();
    properties.push((String::from_str("id"), PropertyType::String));
    properties.push((String::from_str("degree"), PropertyType::Object));
    let mut required: Vec<String> = Vec::new();
    required.push(String::from_str("id"));
    required.push(String::from_str("degree"));
    let r = CredentialSchema {
        id: String::from_str("http://example.edu/schemas/degree.json"),
        credential_type: String::from_str("UniversityDegreeCredential"),
        properties,
        required,
    };
    proof {
        assert(r.props() =~= seq![(("id")@, PropertyType::String), (("degree")@, PropertyType::Object)]);
        assert(r.reqs() =~= seq![("id")@, ("degree")@]);
    }
    r
}

pub fn get_employment_credential_schema() -> (r: CredentialSchema)
    ensures
        r.id@ == ("http://example.com/schemas/employment.json")@,
        r.credential_type@ == ("EmploymentCredential")@,
        r.props() == seq![
            (("id")@, PropertyType::String),
            (("employmentStatus")@, PropertyType::String),
            (("employerName")@, PropertyType::String),
        ],
        r.reqs() == seq![("id")@, ("employmentStatus")@, ("employerName")@],
{
    let mut properties: Vec<(String, PropertyType)> = Vec::new();
    properties.push((String::from_str("id"), PropertyType::String));
    properties.push((String::from_str("employmentStatus"), PropertyType::String));
    properties.push((String::from_str("employerName"), PropertyType::String));
    let mut required: Vec<String> = Vec::new();
    required.push(String::from_str("id"));
    required.push(String::from_str("employmentStatus"));
    required.push(String::from_str("employerName"));
    let r = CredentialSchema {
        id: String::from_str("http://example.com/schemas/employment.json"),
        credential_type: String::from_str("EmploymentCredential"),
        properties,
        required,
    };
    proof {
        assert(r.props() =~= seq![
            (("id")@, PropertyType::String),
            (("employmentStatus")@, PropertyType::String),
            (("employerName")@, PropertyType::String),
        ]);
        assert(r.reqs() =~= seq![("id")@, ("employmentStatus")@, ("employerName")@]);
    }
    r
}

/// Look a credential type up in this catalogue.
pub fn get_schema(credential_type: &str) -> (r: Option<CredentialSchema>)
    ensures
        r is Some <==> credential_type@ == ("UniversityDegreeCredential")@ || credential_type@ == (
        "EmploymentCredential")@,
        match r {
            Some(s) => s.credential_type@ == credential_type@,
            None => true,
        },
{
    if crate::strutil::eq_str(credential_type, "UniversityDegreeCredential") {
        Some(get_university_degree_schema())
    } else if crate::strutil::eq_str(credential_type, "EmploymentCredential") {
        Some(get_employment_credential_schema())
    } else {
        None
    }
}

} // verus!
