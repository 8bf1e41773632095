//! Failures of the issuing pipeline.

use vstd::prelude::*;
use crate::utils::error::UtilsError;

verus! {

/// What can go wrong while a credential is assembled and signed.
#[derive(Debug)]
pub enum IssuerError {
    InvalidType(String),
    SchemaValidationError(String),
    SerializationError(String),
    SigningError(String),
    UtilsError(UtilsError),
}

} // verus!
