//! Content hashing for the integrity ledger: SHA-256 rendered as unpadded
//! URL-safe base64.
use vstd::prelude::*;
use base64::Engine;
use sha2::Digest;

verus! {

/// The 32-byte SHA-256 digest of `bytes`, as computed by the sha2 crate.
pub uninterp spec fn sha256_of(bytes: Seq<u8>) -> Seq<u8>;

/// The unpadded URL-safe base64 rendering of `bytes`, as computed by the
/// base64 crate's `URL_SAFE_NO_PAD` engine.
pub uninterp spec fn b64url_of(bytes: Seq<u8>) -> Seq<char>;

/// The ledger rendering of a content hash.
pub open spec fn content_hash_of(content: Seq<u8>) -> Seq<char> {
    b64url_of(sha256_of(content))
}

/// Relies on sha2's `Sha256::digest`: the digest is 32 bytes and is a function
/// of the input bytes alone.
#[verifier::external_body]
fn sha256(bytes: &[u8]) -> (r: Vec<u8>)
    ensures
        r@ == sha256_of(bytes@),
        r@.len() == 32,
{
    sha2::Sha256::digest(bytes).to_vec()
}

/// Relies on base64's `Engine::encode` with the `URL_SAFE_NO_PAD` engine: the
/// encoding is a function of the input bytes alone, without padding.
#[verifier::external_body]
fn b64url_nopad(bytes: &[u8]) -> (r: String)
    ensures
        r@ == b64url_of(bytes@),
{
    base64::engine::general_purpose::URL_SAFE_NO_PAD.encode(bytes)
}

/// Hashes `bytes` as the integrity ledger records it.
pub fn content_hash(bytes: &[u8]) -> (r: String)
    ensures
        r@ == content_hash_of(bytes@),
{
    let digest = sha256(bytes);
    b64url_nopad(digest.as_slice())
}

} // verus!
