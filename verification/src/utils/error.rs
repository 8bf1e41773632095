//! Failures of the cryptographic utility layer.

use vstd::prelude::*;

verus! {

/// What can go wrong while serializing for signing or while handling
/// signatures.
#[derive(Debug)]
pub enum UtilsError {
    JsonSerializationError(String),
    SignatureError(String),
}

} // verus!
