//! Selective disclosure: salts, disclosure strings, their digests, and
//! the partition of a subject into cleartext claims and disclosable
//! ones.

use vstd::prelude::*;
use vstd::utf8::encode_utf8;
use vstd::string::StringSliceAdditionalSpecFns;
use crate::json::{JsonModel, JsonValue, JsonEntry, jm_of_entries, lemma_jm_of_entries_index};
use crate::canon::{canon_string, to_canonical_string};
use crate::encoding::{base64url_of, b64url_encode, b64url_char, sha256_of, sha256};
use crate::strutil::{eq_str, push_char};
use crate::sys::random_bytes_16;

verus! {

/// A fresh salt: 16 random bytes, Base64url without padding, hence 22
/// characters of the URL-safe alphabet.
pub fn create_salt() -> (r: String)
    ensures
        r@.len() == 22,
        forall|i: int| 0 <= i < r@.len() ==> b64url_char(#[trigger] r@[i]),
        exists|b: Seq<u8>| b.len() == 16 && r@ == base64url_of(b),
{
    let bytes = random_bytes_16();
    let r = b64url_encode(bytes.as_slice());
    proof {
        assert(bytes@.len() == 16 && r@ == base64url_of(bytes@));
    }
    r
}

/// The text a claim value contributes to its disclosure string: the
/// inner text for strings, the canonical JSON form otherwise.
pub open spec fn claim_text(v: JsonModel) -> Seq<char> {
    match v {
        JsonModel::Str(s) => s,
        _ => canon_string(v),
    }
}

/// The disclosure string `salt.name.text`.
pub open spec fn disclosure_string(salt: Seq<char>, name: Seq<char>, value: JsonModel) -> Seq<
    char,
> {
    salt + seq!['.'] + name + seq!['.'] + claim_text(value)
}

/// Build the disclosure string for one claim.
pub fn create_disclosure(salt: &str, claim_name: &str, claim_value: &JsonValue) -> (r: String)
    ensures
        r@ == disclosure_string(salt@, claim_name@, claim_value@),
{
    let mut r = String::from_str(salt);
    push_char(&mut r, '.');
    r.append(claim_name);
    push_char(&mut r, '.');
    match claim_value {
        JsonValue::Str(s) => {
            r.append(s.as_str());
        },
        _ => {
            let text = to_canonical_string(claim_value);
            r.append(text.as_str());
        },
    }
    proof {
        assert(r@ =~= disclosure_string(salt@, claim_name@, claim_value@));
    }
    r
}

/// The digest a disclosure commits to: Base64url of its SHA-256.
pub open spec fn disclosure_digest(s: Seq<char>) -> Seq<char> {
    base64url_of(sha256_of(encode_utf8(s)))
}

/// Hash a disclosure string: SHA-256, Base64url without padding.
pub fn hash_disclosure(disclosure: &str) -> (r: String)
    ensures
        r@ == disclosure_digest(disclosure@),
{
    let digest = sha256(disclosure.as_bytes());
    b64url_encode(digest.as_slice())
}

/// Whether `k` occurs among `keys`.
pub open spec fn in_set(keys: Seq<Seq<char>>, k: Seq<char>) -> bool {
    exists|i: int| 0 <= i < keys.len() && keys[i] == k
}

/// The entries whose keys are not selected, in order.
pub open spec fn cleartext_of(es: Seq<(Seq<char>, JsonModel)>, keys: Seq<Seq<char>>) -> Seq<
    (Seq<char>, JsonModel),
>
    decreases es.len(),
{
    if es.len() == 0 {
        Seq::empty()
    } else if in_set(keys, es[0].0) {
        cleartext_of(es.drop_first(), keys)
    } else {
        seq![es[0]] + cleartext_of(es.drop_first(), keys)
    }
}

/// The entries whose keys are selected, in order.
pub open spec fn disclosed_of(es: Seq<(Seq<char>, JsonModel)>, keys: Seq<Seq<char>>) -> Seq<
    (Seq<char>, JsonModel),
>
    decreases es.len(),
{
    if es.len() == 0 {
        Seq::empty()
    } else if in_set(keys, es[0].0) {
        seq![es[0]] + disclosed_of(es.drop_first(), keys)
    } else {
        disclosed_of(es.drop_first(), keys)
    }
}

proof fn lemma_cleartext_snoc(es: Seq<(Seq<char>, JsonModel)>, keys: Seq<Seq<char>>, x: (
    Seq<char>,
    JsonModel,
))
    ensures
        cleartext_of(es.push(x), keys) == if in_set(keys, x.0) {
            cleartext_of(es, keys)
        } else {
            cleartext_of(es, keys) + seq![x]
        },
        disclosed_of(es.push(x), keys) == if in_set(keys, x.0) {
            disclosed_of(es, keys) + seq![x]
        } else {
            disclosed_of(es, keys)
        },
    decreases es.len(),
{
    if es.len() == 0 {
        assert(es.push(x) =~= seq![x]);
        assert(es.push(x).drop_first() =~= Seq::<(Seq<char>, JsonModel)>::empty());
        assert(cleartext_of(Seq::<(Seq<char>, JsonModel)>::empty(), keys) =~= Seq::empty());
        assert(disclosed_of(Seq::<(Seq<char>, JsonModel)>::empty(), keys) =~= Seq::empty());
        assert(es.push(x)[0] == x);
        if in_set(keys, x.0) {
            assert(cleartext_of(es.push(x), keys) =~= cleartext_of(es, keys));
            assert(disclosed_of(es.push(x), keys) =~= disclosed_of(es, keys) + seq![x]);
        } else {
            assert(cleartext_of(es.push(x), keys) =~= cleartext_of(es, keys) + seq![x]);
            assert(disclosed_of(es.push(x), keys) =~= disclosed_of(es, keys));
        }
    } else {
        lemma_cleartext_snoc(es.drop_first(), keys, x);
        assert(es.push(x).drop_first() =~= es.drop_first().push(x));
        assert(es.push(x)[0] == es[0]);
        if in_set(keys, x.0) {
            assert(cleartext_of(es.push(x), keys) =~= cleartext_of(es, keys));
            assert(disclosed_of(es.push(x), keys) =~= disclosed_of(es, keys) + seq![x]);
        } else {
            assert(cleartext_of(es.push(x), keys) =~= cleartext_of(es, keys) + seq![x]);
            assert(disclosed_of(es.push(x), keys) =~= disclosed_of(es, keys));
        }
    }
}

/// Whether a disclosure string commits the named entry with a fresh,
/// well-formed salt.
pub open spec fn disclosure_for(d: Seq<char>, entry: (Seq<char>, JsonModel)) -> bool {
    exists|salt: Seq<char>|
        salt.len() == 22 && (forall|j: int| 0 <= j < salt.len() ==> b64url_char(#[trigger] salt[j]))
            && d == disclosure_string(salt, entry.0, entry.1)
}

/// Whether `key` occurs among the strings of `v`.
fn contains_str(v: &Vec<String>, key: &str) -> (r: bool)
    ensures
        r == in_set(v.deep_view(), key@),
{
    let n = v.len();
    let mut i: usize = 0;
    while i < n
        invariant
            i <= n,
            n == v@.len(),
            forall|j: int| 0 <= j < i ==> v@[j]@ != key@,
        decreases n - i,
    {
        if eq_str(v[i].as_str(), key) {
            proof {
                assert(v.deep_view()[i as int] == key@);
            }
            return true;
        }
        i = i + 1;
    }
    false
}

/// Split a subject into cleartext entries and selectively-disclosable
/// ones: each selected claim gets a salted disclosure string, and its
/// digest stands under the claim's name.
#[verifier::loop_isolation(false)]
pub fn partition(subject: &JsonValue, disclose: &Vec<String>) -> (r: Result<
    (Vec<JsonEntry>, Vec<JsonEntry>, Vec<String>),
    (),
>)
    ensures
        match r {
            Ok((clear, sd, discs)) => {
                &&& subject@ is Object
                &&& jm_of_entries(clear@) == cleartext_of(
                    subject@->Object_0,
                    disclose.deep_view(),
                )
                &&& sd@.len() == disclosed_of(subject@->Object_0, disclose.deep_view()).len()
                &&& discs@.len() == sd@.len()
                &&& forall|i: int|
                    0 <= i < sd@.len() ==> {
                        &&& (#[trigger] sd@[i]).key@ == disclosed_of(
                            subject@->Object_0,
                            disclose.deep_view(),
                        )[i].0
                        &&& sd@[i].value@ == JsonModel::Str(disclosure_digest(discs@[i]@))
                        &&& disclosure_for(
                            discs@[i]@,
                            disclosed_of(subject@->Object_0, disclose.deep_view())[i],
                        )
                    }
            },
            Err(_) => !(subject@ is Object),
        },
{
    let entries = match subject {
        JsonValue::Object(entries) => entries,
        _ => {
            return Err(());
        },
    };
    let ghost es = jm_of_entries(entries@);
    let ghost keys = disclose.deep_view();
    proof {
        lemma_jm_of_entries_index(entries@);
    }
    let mut clear: Vec<JsonEntry> = Vec::new();
    let mut sd: Vec<JsonEntry> = Vec::new();
    let mut discs: Vec<String> = Vec::new();
    let n = entries.len();
    let mut i: usize = 0;
    while i < n
        invariant
            i <= n,
            jm_of_entries(clear@) == cleartext_of(es.take(i as int), keys),
            sd@.len() == disclosed_of(es.take(i as int), keys).len(),
            discs@.len() == sd@.len(),
            forall|k: int|
                0 <= k < sd@.len() ==> {
                    &&& (#[trigger] sd@[k]).key@ == disclosed_of(es.take(i as int), keys)[k].0
                    &&& sd@[k].value@ == JsonModel::Str(disclosure_digest(discs@[k]@))
                    &&& disclosure_for(discs@[k]@, disclosed_of(es.take(i as int), keys)[k])
                },
        decreases n - i,
    {
        proof {
            lemma_cleartext_snoc(es.take(i as int), keys, es[i as int]);
            assert(es.take(i as int).push(es[i as int]) =~= es.take(i + 1));
        }
        let ghost old_sd = disclosed_of(es.take(i as int), keys);
        if contains_str(disclose, entries[i].key.as_str()) {
            let salt = create_salt();
            let disclosure = create_disclosure(salt.as_str(), entries[i].key.as_str(), &entries[i].value);
            let digest = hash_disclosure(disclosure.as_str());
            sd.push(JsonEntry { key: entries[i].key.clone(), value: JsonValue::Str(digest) });
            discs.push(disclosure);
            proof {
                assert(disclosed_of(es.take(i + 1), keys) =~= old_sd.push(es[i as int]));
            }
        } else {
            let key = entries[i].key.clone();
            let value = entries[i].value.clone();
            let ghost old_clear = clear@;
            clear.push(JsonEntry { key, value });
            proof {
                lemma_jm_of_entries_index(old_clear);
                lemma_jm_of_entries_index(clear@);
                assert(jm_of_entries(clear@) =~= cleartext_of(es.take(i + 1), keys));
            }
        }
        i = i + 1;
    }
    proof {
        assert(es.take(n as int) =~= es);
    }
    Ok((clear, sd, discs))
}

} // verus!
