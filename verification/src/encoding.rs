//! Byte-to-text encodings and the digest the credential formats rely
//! on. Each outside call stands behind a trusted wrapper whose contract
//! names its result; the round-trip clauses tie each encoder to its own
//! decoder.

use vstd::prelude::*;

verus! {

/// A character of the URL-safe Base64 alphabet.
pub open spec fn b64url_char(c: char) -> bool {
    ('A' <= c && c <= 'Z') || ('a' <= c && c <= 'z') || ('0' <= c && c <= '9') || c == '-' || c
        == '_'
}

/// What base64's URL-safe no-padding engine returns for `bytes`.
pub uninterp spec fn base64url_of(bytes: Seq<u8>) -> Seq<char>;

/// What base64's URL-safe no-padding decoder returns: the bytes whose
/// canonical encoding the input is, if it is one.
pub uninterp spec fn base64url_decode_of(s: Seq<char>) -> Option<Seq<u8>>;

/// Relies on base64's `Engine::encode` with `URL_SAFE_NO_PAD`: an
/// unpadded encoding of ceil(4n/3) characters over `A-Z a-z 0-9 - _`,
/// which the engine's own decoder maps back to the input.
#[verifier::external_body]
pub fn b64url_encode(bytes: &[u8]) -> (r: String)
    ensures
        r@ == base64url_of(bytes@),
        r@.len() == (bytes@.len() * 4 + 2) / 3,
        forall|i: int| 0 <= i < r@.len() ==> b64url_char(#[trigger] r@[i]),
        base64url_decode_of(r@) == Some(bytes@),
{
    base64::Engine::encode(&base64::engine::general_purpose::URL_SAFE_NO_PAD, bytes)
}

/// Relies on base64's `Engine::decode` with `URL_SAFE_NO_PAD`: it
/// accepts exactly the canonical unpadded encodings (padding and
/// non-zero trailing bits are refused) and returns the encoded bytes.
#[verifier::external_body]
pub fn b64url_decode(s: &str) -> (r: Option<Vec<u8>>)
    ensures
        match r {
            Some(b) => base64url_decode_of(s@) == Some(b@),
            None => base64url_decode_of(s@) is None,
        },
{
    match base64::Engine::decode(&base64::engine::general_purpose::URL_SAFE_NO_PAD, s) {
        Ok(v) => Some(v),
        Err(_) => None,
    }
}

/// What base58's encoder returns for `bytes`.
pub uninterp spec fn base58_of(bytes: Seq<u8>) -> Seq<char>;

/// What base58's decoder returns for `s`, if it decodes.
pub uninterp spec fn base58_decode_of(s: Seq<char>) -> Option<Seq<u8>>;

/// Relies on base58's `ToBase58::to_base58` (Bitcoin alphabet), whose
/// own decoder recovers inputs of its supported size (up to 128
/// bytes). The encoding of `n` bytes takes at most `2n` characters:
/// the digit buffer holds `n * 138 / 100 + 1` digits, and each leading
/// zero byte becomes one `'1'`.
#[verifier::external_body]
pub fn b58_encode(bytes: &[u8]) -> (r: String)
    requires
        bytes@.len() <= 128,
    ensures
        r@ == base58_of(bytes@),
        r@.len() <= 2 * bytes@.len(),
        base58_decode_of(r@) == Some(bytes@),
{
    base58::ToBase58::to_base58(bytes)
}

/// Relies on base58's `FromBase58::from_base58`: it refuses characters
/// outside the alphabet and numbers beyond its 132-byte buffer, and
/// its result is a function of the input alone. Inputs longer than 132
/// characters are out of the decoder's supported range (each character
/// contributes at most one decoded byte, and the decoder's final slice
/// assumes the output fits its buffer), so they are kept out here and
/// callers must refuse them first.
#[verifier::external_body]
pub fn b58_decode(s: &str) -> (r: Option<Vec<u8>>)
    requires
        s@.len() <= 132,
    ensures
        match r {
            Some(b) => base58_decode_of(s@) == Some(b@),
            None => base58_decode_of(s@) is None,
        },
{
    match base58::FromBase58::from_base58(s) {
        Ok(v) => Some(v),
        Err(_) => None,
    }
}

/// What SHA-256 returns for `bytes`.
pub uninterp spec fn sha256_of(bytes: Seq<u8>) -> Seq<u8>;

/// Relies on sha2's `Sha256`: a 32-byte digest determined by the input
/// alone.
#[verifier::external_body]
pub fn sha256(bytes: &[u8]) -> (r: Vec<u8>)
    ensures
        r@ == sha256_of(bytes@),
        r@.len() == 32,
{
    let mut hasher = <sha2::Sha256 as sha2::Digest>::new();
    sha2::Digest::update(&mut hasher, bytes);
    sha2::Digest::finalize(hasher).to_vec()
}

} // verus!
