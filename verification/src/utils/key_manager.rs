//! Ed25519 key material. A key pair holds the 32-byte secret and the
//! public key derived from it; the derivation, signing and verification
//! calls into ed25519_dalek stand behind trusted wrappers.

use vstd::prelude::*;
use crate::encoding::{base58_decode_of, b58_decode};
use crate::utils::error::UtilsError;

verus! {

/// The public key ed25519_dalek derives from a 32-byte secret.
pub uninterp spec fn ed25519_public_of(secret: Seq<u8>) -> Seq<u8>;

/// The deterministic RFC 8032 signature ed25519_dalek produces for a
/// message under a 32-byte secret.
pub uninterp spec fn ed25519_sign_of(secret: Seq<u8>, msg: Seq<u8>) -> Seq<u8>;

/// Whether ed25519_dalek accepts `sig` for `msg` under the public key
/// bytes `public` (signature parsing included).
pub uninterp spec fn ed25519_verifies(public: Seq<u8>, msg: Seq<u8>, sig: Seq<u8>) -> bool;

/// Relies on ed25519_dalek's `SecretKey::from_bytes` (total on 32-byte
/// input) and `PublicKey::from`: the 32-byte public key derived from
/// the secret.
#[verifier::external_body]
fn derive_public(secret: &[u8]) -> (r: Vec<u8>)
    requires
        secret@.len() == 32,
    ensures
        r@ == ed25519_public_of(secret@),
        r@.len() == 32,
{
    let sk = ed25519_dalek::SecretKey::from_bytes(secret).unwrap();
    let pk = ed25519_dalek::PublicKey::from(&sk);
    pk.to_bytes().to_vec()
}

/// An Ed25519 key pair: the secret and the public key it derives.
pub struct KeyPair {
    pub secret: Vec<u8>,
    pub public: Vec<u8>,
}

impl KeyPair {
    /// Both halves are 32 bytes and the public key matches the secret.
    pub open spec fn wf(self) -> bool {
        &&& self.secret@.len() == 32
        &&& self.public@.len() == 32
        &&& self.public@ == ed25519_public_of(self.secret@)
    }

    /// A key pair from a 32-byte secret; the public key is derived.
    pub fn from_secret(secret: Vec<u8>) -> (r: Result<KeyPair, UtilsError>)
        ensures
            match r {
                Ok(kp) => kp.wf() && kp.secret@ == secret@ && secret@.len() == 32,
                Err(_) => secret@.len() != 32,
            },
    {
        if secret.len() != 32 {
            return Err(UtilsError::SignatureError(String::from_str("secret key must be 32 bytes")));
        }
        let public = derive_public(secret.as_slice());
        Ok(KeyPair { secret, public })
    }

    /// A key pair from both halves; fails unless the public key equals
    /// the one the secret derives.
    pub fn from_parts(secret: Vec<u8>, public: Vec<u8>) -> (r: Result<KeyPair, UtilsError>)
        ensures
            match r {
                Ok(kp) => kp.wf() && kp.secret@ == secret@ && kp.public@ == public@,
                Err(_) => !(secret@.len() == 32 && public@.len() == 32 && public@
                    == ed25519_public_of(secret@)),
            },
    {
        if secret.len() != 32 || public.len() != 32 {
            return Err(UtilsError::SignatureError(String::from_str("keys must be 32 bytes")));
        }
        let derived = derive_public(secret.as_slice());
        if !bytes_eq(derived.as_slice(), public.as_slice()) {
            return Err(
                UtilsError::SignatureError(
                    String::from_str("public key does not match the secret key"),
                ),
            );
        }
        Ok(KeyPair { secret, public })
    }

    /// A key pair from the Base58 forms of both halves, as the key file
    /// carries them. Strings beyond the Base58 decoder's 132-character
    /// range are refused outright: a 32-byte key encodes to at most 64.
    pub fn from_base58(public_b58: &str, secret_b58: &str) -> (r: Result<KeyPair, UtilsError>)
        ensures
            match r {
                Ok(kp) => {
                    &&& kp.wf()
                    &&& base58_decode_of(secret_b58@) == Some(kp.secret@)
                    &&& base58_decode_of(public_b58@) == Some(kp.public@)
                },
                Err(_) => !(secret_b58@.len() <= 132 && public_b58@.len() <= 132 && match (
                    base58_decode_of(secret_b58@),
                    base58_decode_of(public_b58@),
                ) {
                    (Some(s), Some(p)) => s.len() == 32 && p.len() == 32 && p
                        == ed25519_public_of(s),
                    _ => false,
                }),
            },
    {
        if secret_b58.unicode_len() > 132 {
            return Err(UtilsError::SignatureError(String::from_str("invalid private key")));
        }
        if public_b58.unicode_len() > 132 {
            return Err(UtilsError::SignatureError(String::from_str("invalid public key")));
        }
        let secret = match b58_decode(secret_b58) {
            Some(b) => b,
            None => {
                return Err(UtilsError::SignatureError(String::from_str("invalid private key")));
            },
        };
        let public = match b58_decode(public_b58) {
            Some(b) => b,
            None => {
                return Err(UtilsError::SignatureError(String::from_str("invalid public key")));
            },
        };
        KeyPair::from_parts(secret, public)
    }

    /// The public key bytes.
    pub fn public_bytes(&self) -> (r: &Vec<u8>)
        ensures
            r@ == self.public@,
    {
        &self.public
    }
}

/// Whether two byte strings are equal.
pub fn bytes_eq(a: &[u8], b: &[u8]) -> (r: bool)
    ensures
        r == (a@ == b@),
{
    if a.len() != b.len() {
        return false;
    }
    let n = a.len();
    let mut i: usize = 0;
    while i < n
        invariant
            i <= n,
            n == a@.len(),
            n == b@.len(),
            forall|j: int| 0 <= j < i ==> a@[j] == b@[j],
        decreases n - i,
    {
        if a[i] != b[i] {
            return false;
        }
        i = i + 1;
    }
    proof {
        assert(a@ =~= b@);
    }
    true
}

/// Relies on ed25519_dalek's `Keypair::sign`: the deterministic 64-byte
/// RFC 8032 signature, which `PublicKey::verify` accepts for the same
/// message under the pair's public key.
#[verifier::external_body]
pub fn sign_bytes(kp: &KeyPair, msg: &[u8]) -> (r: Vec<u8>)
    requires
        kp.wf(),
    ensures
        r@ == ed25519_sign_of(kp.secret@, msg@),
        r@.len() == 64,
        ed25519_verifies(kp.public@, msg@, r@),
{
    let secret = ed25519_dalek::SecretKey::from_bytes(kp.secret.as_slice()).unwrap();
    let public = ed25519_dalek::PublicKey::from_bytes(kp.public.as_slice()).unwrap();
    let pair = ed25519_dalek::Keypair { secret, public };
    ed25519_dalek::Signer::sign(&pair, msg).to_bytes().to_vec()
}

/// Relies on ed25519_dalek's `PublicKey::from_bytes`,
/// `Signature::try_from` and `PublicKey::verify`: whether the bytes
/// parse as a signature that verifies for the message under the key;
/// anything that is not 64 bytes is refused.
#[verifier::external_body]
pub fn verify_bytes(public: &[u8], msg: &[u8], sig: &[u8]) -> (r: bool)
    requires
        public@.len() == 32,
    ensures
        r == ed25519_verifies(public@, msg@, sig@),
        sig@.len() != 64 ==> !r,
{
    let pk = match ed25519_dalek::PublicKey::from_bytes(public) {
        Ok(p) => p,
        Err(_) => {
            return false;
        },
    };
    let s = match <ed25519_dalek::Signature as core::convert::TryFrom<&[u8]>>::try_from(sig) {
        Ok(s) => s,
        Err(_) => {
            return false;
        },
    };
    ed25519_dalek::Verifier::verify(&pk, msg, &s).is_ok()
}

/// A key manager that names the file the key pair is loaded from; the
/// loading itself is input handling and stays outside the library.
pub struct FileKeyManager {
    pub file_path: String,
}

impl FileKeyManager {
    pub fn new(file_path: String) -> (r: Self)
        ensures
            r.file_path@ == file_path@,
    {
        FileKeyManager { file_path }
    }
}

} // verus!
