//! A three-role W3C Verifiable Credentials service core: an issuer that
//! assembles and signs credentials (embedded Ed25519 proofs and SD-JWTs),
//! a holder that stores credentials and assembles presentations, and a
//! verifier that checks signatures end to end. Signing and verification
//! both run over a deterministic canonical JSON form.

pub mod canon;
pub mod encoding;
pub mod holder;
pub mod issuer;
pub mod json;
pub mod laws;
pub mod models;
pub mod schema;
pub mod strutil;
pub mod sys;
pub mod utils;
pub mod vc_verifier;
