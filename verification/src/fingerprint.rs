//! Content-addressed cache keys for recommendation requests.
//!
//! A logical request — its query text and its serialized variables — is
//! mapped to a stable fingerprint: the SHA-256 digest of
//! `utf8(query) ++ "|" ++ utf8(variables)`, rendered as lowercase hex and
//! namespaced with a fixed prefix. The key is a function of the two texts
//! alone: no per-process salt, no randomness, stable across restarts.

use vstd::prelude::*;
use vstd::string::*;
use vstd::utf8::encode_utf8;

use sha2::Digest;

verus! {

/// The SHA-256 digest of a byte sequence, as the sha2 crate computes it.
/// The digest depends on the input bytes alone.
pub uninterp spec fn sha256_of(bytes: Seq<u8>) -> Seq<u8>;

/// The lowercase hex digit for a nibble value.
pub open spec fn hex_char_of(n: int) -> char {
    if n == 0 {
        '0'
    } else if n == 1 {
        '1'
    } else if n == 2 {
        '2'
    } else if n == 3 {
        '3'
    } else if n == 4 {
        '4'
    } else if n == 5 {
        '5'
    } else if n == 6 {
        '6'
    } else if n == 7 {
        '7'
    } else if n == 8 {
        '8'
    } else if n == 9 {
        '9'
    } else if n == 10 {
        'a'
    } else if n == 11 {
        'b'
    } else if n == 12 {
        'c'
    } else if n == 13 {
        'd'
    } else if n == 14 {
        'e'
    } else {
        'f'
    }
}

/// Lowercase hex rendering of a byte sequence: two digits per byte, high
/// nibble first.
pub open spec fn hex_of(bytes: Seq<u8>) -> Seq<char> {
    Seq::new(
        (2 * bytes.len()) as nat,
        |i: int|
            if i % 2 == 0 {
                hex_char_of(bytes[i / 2] as int / 16)
            } else {
                hex_char_of(bytes[i / 2] as int % 16)
            },
    )
}

/// The bytes hashed for a fingerprint: the query text, a `'|'` separator
/// byte, and the serialized variables, each UTF-8 encoded.
pub open spec fn spec_fingerprint_input(query: Seq<char>, variables: Seq<char>) -> Seq<u8> {
    encode_utf8(query) + seq![124u8] + encode_utf8(variables)
}

/// The full cache key: a fixed namespace prefix and the lowercase hex
/// digest of the fingerprint input.
pub open spec fn spec_key_for(query: Seq<char>, variables: Seq<char>) -> Seq<char> {
    "gql:"@ + hex_of(sha256_of(spec_fingerprint_input(query, variables)))
}

/// Relies on sha2's `Sha256` (the FIPS 180-4 function): a 32-byte digest
/// determined by the input bytes alone, identical in every process and on
/// every machine.
#[verifier::external_body]
fn sha256(bytes: &[u8]) -> (r: Vec<u8>)
    ensures
        r@ == sha256_of(bytes@),
        r@.len() == 32,
{
    sha2::Sha256::digest(bytes).to_vec()
}

/// Relies on hex::encode: two lowercase digits per byte, high nibble first.
#[verifier::external_body]
fn hex_encode(bytes: &[u8]) -> (r: String)
    ensures
        r@ == hex_of(bytes@),
{
    hex::encode(bytes)
}

/// Derive the cache key of a logical request. Identical
/// `(query, variables_json)` pairs always yield the identical key, in any
/// process and any run; the key is the namespaced lowercase hex SHA-256
/// digest of the two texts joined by a `'|'` separator byte.
pub fn key_for(query: &str, variables_json: &str) -> (r: String)
    ensures
        r@ == spec_key_for(query@, variables_json@),
        r@.len() == 68,
        r@.subrange(0, 4) == "gql:"@,
{
    let mut buf = query.as_bytes_vec();
    buf.push(124u8);
    let mut tail = variables_json.as_bytes_vec();
    buf.append(&mut tail);
    proof {
        assert(buf@ =~= spec_fingerprint_input(query@, variables_json@));
    }
    let digest = sha256(buf.as_slice());
    let digest_hex = hex_encode(digest.as_slice());
    let mut key = String::from_str("gql:");
    key.append(digest_hex.as_str());
    proof {
        reveal_strlit("gql:");
        assert(key@.subrange(0, 4) =~= "gql:"@);
    }
    key
}

/// Fingerprint determinism: the cache key is a function of the query text
/// and the serialized variables alone, so identical pairs always yield the
/// identical key. (That distinct pairs yield distinct keys is
/// probabilistic — it rests on SHA-256 collision resistance — and is not
/// stated.)
pub proof fn lemma_key_for_deterministic(
    q1: Seq<char>,
    v1: Seq<char>,
    q2: Seq<char>,
    v2: Seq<char>,
)
    requires
        q1 == q2,
        v1 == v2,
    ensures
        spec_key_for(q1, v1) == spec_key_for(q2, v2),
{
}

} // verus!
