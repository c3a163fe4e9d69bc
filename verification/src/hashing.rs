//! Content hashing: the deterministic hash of an origin URL that acts as its
//! natural key for deduplication.

use base64::Engine;
use sha2::Digest;
use vstd::prelude::*;
use vstd::string::StringSliceAdditionalSpecFns;

verus! {

/// The SHA-256 digest of a byte sequence; a function of the input alone.
pub uninterp spec fn sha256_of(input: Seq<u8>) -> Seq<u8>;

/// The URL-safe, unpadded base-64 rendering of a byte sequence; a function
/// of the input alone.
pub uninterp spec fn base64_url_nopad_of(bytes: Seq<u8>) -> Seq<char>;

/// The content hash of a URL: its SHA-256 digest rendered as URL-safe
/// base-64 without padding, 43 characters for the 32 digest bytes.
pub open spec fn link_hash_of(input: Seq<u8>) -> Seq<char> {
    base64_url_nopad_of(sha256_of(input))
}

/// A character of the URL-safe base-64 alphabet: a letter, a digit, `-`
/// or `_`; never `=`.
pub open spec fn is_b64url_char(c: char) -> bool {
    ||| ('A' as int) <= c as int <= ('Z' as int)
    ||| ('a' as int) <= c as int <= ('z' as int)
    ||| ('0' as int) <= c as int <= ('9' as int)
    ||| c == '-'
    ||| c == '_'
}

/// Relies on sha2's `Sha256::digest`: the digest is 32 bytes and depends on
/// the input bytes alone.
#[verifier::external_body]
fn sha256_digest(input: &str) -> (r: Vec<u8>)
    ensures
        r@ == sha256_of(input.spec_bytes()),
        r@.len() == 32,
{
    sha2::Sha256::digest(input).to_vec()
}

/// Relies on base64's `URL_SAFE_NO_PAD` engine (`Engine::encode`): the
/// rendering depends on the input bytes alone, draws every character from
/// the URL-safe alphabet with no padding, and, unpadded, spells four
/// characters for every three bytes, rounded up.
#[verifier::external_body]
fn base64_url_nopad(bytes: &Vec<u8>) -> (r: String)
    ensures
        r@ == base64_url_nopad_of(bytes@),
        r@.len() == (bytes@.len() * 4 + 2) / 3,
        forall|i: int| 0 <= i < r@.len() ==> is_b64url_char(#[trigger] r@[i]),
{
    base64::engine::general_purpose::URL_SAFE_NO_PAD.encode(bytes)
}

/// The content hash of a string: SHA-256, URL-safe base-64, no padding -
/// 43 characters, each from the URL-safe alphabet, deterministic in the
/// input, so it serves as the content-addressed natural key of a URL.
pub fn calculate_sha256(input: &str) -> (r: String)
    ensures
        r@ == link_hash_of(input.spec_bytes()),
        r@.len() == 43,
        forall|i: int| 0 <= i < r@.len() ==> is_b64url_char(#[trigger] r@[i]),
{
    let digest = sha256_digest(input);
    base64_url_nopad(&digest)
}

} // verus!
