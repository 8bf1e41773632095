//! Failures of the verification pipeline, and their one place of
//! flattening into text.

use vstd::prelude::*;
use crate::utils::error::UtilsError;

verus! {

/// Why a credential or presentation was not accepted.
#[derive(Debug)]
pub enum VerifierError {
    MissingProof,
    UntrustedIssuer,
    InvalidCredentialFormat,
    InvalidBase64Encoding,
    InvalidJsonPayload,
    MissingSdAlgClaim,
    SignatureVerificationFailed(String),
    InternalError(String),
    UtilsError(UtilsError),
}

/// How a verification failure is answered at the transport boundary:
/// a semantic negative is a successful call whose answer is "not
/// verified"; an input-shape problem is the caller's; the rest is
/// internal.
#[derive(Clone, Copy, Debug, PartialEq, Eq, Structural)]
pub enum FailureClass {
    Semantic,
    InputShape,
    Internal,
}

/// Classify a verifier failure: signature mismatch, untrusted issuer,
/// malformed SD-JWT segments or payload, and a missing `_sd_alg` are
/// semantic negatives; a missing proof block is an input-shape
/// problem; everything else is internal.
pub fn classify_failure(error: &VerifierError) -> (r: FailureClass)
    ensures
        r == match error {
            VerifierError::MissingProof => FailureClass::InputShape,
            VerifierError::UntrustedIssuer => FailureClass::Semantic,
            VerifierError::InvalidCredentialFormat => FailureClass::Semantic,
            VerifierError::InvalidBase64Encoding => FailureClass::Semantic,
            VerifierError::InvalidJsonPayload => FailureClass::Semantic,
            VerifierError::MissingSdAlgClaim => FailureClass::Semantic,
            VerifierError::SignatureVerificationFailed(_) => FailureClass::Semantic,
            VerifierError::InternalError(_) => FailureClass::Internal,
            VerifierError::UtilsError(_) => FailureClass::Internal,
        },
{
    match error {
        VerifierError::MissingProof => FailureClass::InputShape,
        VerifierError::UntrustedIssuer => FailureClass::Semantic,
        VerifierError::InvalidCredentialFormat => FailureClass::Semantic,
        VerifierError::InvalidBase64Encoding => FailureClass::Semantic,
        VerifierError::InvalidJsonPayload => FailureClass::Semantic,
        VerifierError::MissingSdAlgClaim => FailureClass::Semantic,
        VerifierError::SignatureVerificationFailed(_) => FailureClass::Semantic,
        VerifierError::InternalError(_) => FailureClass::Internal,
        VerifierError::UtilsError(_) => FailureClass::Internal,
    }
}

/// The text each verifier failure becomes at the transport boundary.
pub fn map_verifier_error_to_string(error: &VerifierError) -> (r: String)
    ensures
        r@ == match error {
            VerifierError::MissingProof => ("Proof is missing")@,
            VerifierError::UntrustedIssuer => ("Untrusted issuer")@,
            VerifierError::InvalidCredentialFormat => ("Invalid credential format")@,
            VerifierError::InvalidBase64Encoding => ("Invalid base64 encoding in payload")@,
            VerifierError::InvalidJsonPayload => ("Invalid JSON in payload")@,
            VerifierError::MissingSdAlgClaim => ("Missing _sd_alg claim in SD-JWT")@,
            VerifierError::SignatureVerificationFailed(_) => ("Signature verification failed")@,
            VerifierError::InternalError(_) => ("Internal server error")@,
            VerifierError::UtilsError(_) => ("Utility error")@,
        },
{
    match error {
        VerifierError::MissingProof => String::from_str("Proof is missing"),
        VerifierError::UntrustedIssuer => String::from_str("Untrusted issuer"),
        VerifierError::InvalidCredentialFormat => String::from_str("Invalid credential format"),
        VerifierError::InvalidBase64Encoding => String::from_str(
            "Invalid base64 encoding in payload",
        ),
        VerifierError::InvalidJsonPayload => String::from_str("Invalid JSON in payload"),
        VerifierError::MissingSdAlgClaim => String::from_str("Missing _sd_alg claim in SD-JWT"),
        VerifierError::SignatureVerificationFailed(_) => String::from_str(
            "Signature verification failed",
        ),
        VerifierError::InternalError(_) => String::from_str("Internal server error"),
        VerifierError::UtilsError(_) => String::from_str("Utility error"),
    }
}

} // verus!
