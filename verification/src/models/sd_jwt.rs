//! Request shape for selectively-disclosable credentials.

use vstd::prelude::*;
use crate::json::JsonValue;
use crate::models::credential::CredentialResponse;

verus! {

/// What a client sends to have an SD-JWT credential issued.
pub struct SDJWTCredentialRequest {
    pub credential_subject: JsonValue,
}

/// A credential response with the selective-disclosure artifacts
/// pulled out beside it.
pub struct SDJWTCredentialResponse {
    pub verifiable_credential: CredentialResponse,
    pub sd_jwt: String,
    pub disclosures: Vec<String>,
}

} // verus!
