//! Bearer-token material: random token generation and SHA-256 hashing.
//!
//! Storing and validating tokens is the embedding program's business;
//! what a token and its hash look like is fixed here.

use vstd::prelude::*;

use rand::RngExt;
use sha2::Digest;

use crate::codec::bytes_to_hex;
use crate::codec::hex_str;
use crate::codec::is_lower_hex_digit;
use crate::codec::lemma_hex_round_trip;
use vstd::string::StringSliceAdditionalSpecFns;
use vstd::utf8::encode_utf8;

verus! {

/// The SHA-256 digest of a byte sequence, by name; which bytes it is on
/// a given input is fixed by the hash function alone.
pub uninterp spec fn sha256_of(data: Seq<u8>) -> Seq<u8>;

/// Relies on sha2's `Sha256` through `Digest::digest`: one 32-byte
/// digest, a function of the input bytes alone.
#[verifier::external_body]
fn sha256_digest(data: &[u8]) -> (r: Vec<u8>)
    ensures
        r@ == sha256_of(data@),
        r@.len() == 32,
{
    sha2::Sha256::digest(data).to_vec()
}

/// Relies on `rand::rng` and `RngExt::random`: 32 bytes drawn from the
/// thread-local generator; nothing is promised of their values.
#[verifier::external_body]
fn random_bytes() -> (r: Vec<u8>)
    ensures
        r@.len() == 32,
{
    let bytes: [u8; 32] = rand::rng().random();
    bytes.to_vec()
}

/// Hashes a bearer token with SHA-256; the hash is the digest of the
/// token's bytes written as 64 lowercase hex digits.
pub fn hash_token(token: &str) -> (r: String)
    ensures
        r@ == hex_str(sha256_of(encode_utf8(token@))),
        r@.len() == 64,
{
    let digest = sha256_digest(token.as_bytes());
    proof {
        lemma_hex_round_trip(digest@);
    }
    bytes_to_hex(digest.as_slice())
}

/// Generates a fresh random bearer token and its hash: the token is 64
/// lowercase hex digits drawn from 32 random bytes, and the hash is
/// `hash_token` of exactly that text.
pub fn generate_token() -> (r: (String, String))
    ensures
        r.0@.len() == 64,
        forall|i: int| 0 <= i < r.0@.len() ==> is_lower_hex_digit(#[trigger] r.0@[i]),
        r.1@ == hex_str(sha256_of(encode_utf8(r.0@))),
{
    let bytes = random_bytes();
    proof {
        lemma_hex_round_trip(bytes@);
    }
    let token = bytes_to_hex(bytes.as_slice());
    let hash = hash_token(token.as_str());
    (token, hash)
}

} // verus!
