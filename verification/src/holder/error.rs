//! Failures of the holder's side.

use vstd::prelude::*;

verus! {

/// What can go wrong while storing credentials or assembling a
/// presentation.
#[derive(Debug)]
pub enum HolderError {
    StorageError(String),
    SerializationError(String),
    CredentialNotFound(String),
    ProofCreationError(String),
}

} // verus!
