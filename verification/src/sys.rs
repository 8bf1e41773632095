//! The few values the library draws from the world: the clock and
//! randomness. Nothing is promised of them beyond their shape.

use vstd::prelude::*;

verus! {

/// Relies on chrono's `Utc::now` and `to_rfc3339`: the current UTC
/// time as an RFC 3339 string — ASCII (digits and the separators
/// `-T:.+`), at least `YYYY-MM-DDThh:mm:ss` and an offset long.
#[verifier::external_body]
pub fn now_rfc3339() -> (r: String)
    ensures
        r@.len() >= 20,
        vstd::utf8::is_ascii_chars(r@),
{
    chrono::Utc::now().to_rfc3339()
}

/// Relies on chrono's `Utc::now` and `timestamp`: seconds since the
/// Unix epoch.
#[verifier::external_body]
pub fn now_unix() -> (r: i64) {
    chrono::Utc::now().timestamp()
}

/// Relies on uuid's `Uuid::new_v4` and `to_string`: the hyphenated
/// form of a fresh version-4 UUID is 36 characters long.
#[verifier::external_body]
pub fn uuid_v4_string() -> (r: String)
    ensures
        r@.len() == 36,
{
    uuid::Uuid::new_v4().to_string()
}

/// Relies on rand's `random`: 16 bytes from the thread RNG.
#[verifier::external_body]
pub fn random_bytes_16() -> (r: Vec<u8>)
    ensures
        r@.len() == 16,
{
    rand::random::<[u8; 16]>().to_vec()
}

} // verus!
