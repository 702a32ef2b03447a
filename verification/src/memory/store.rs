//! The store's own decisions: the content hash that detects exact
//! duplicates, and what a store reports once the hash lookup has answered.
//! Reading and writing rows is the caller's part.
use sha2::Digest;
use vstd::prelude::*;

use crate::text::{hex_of, lemma_hex_len, push_hex};

verus! {

/// The SHA-256 digest of the UTF-8 encoding of a text.
pub uninterp spec fn sha256_digest(text: Seq<char>) -> Seq<u8>;

/// `sha2::Sha256::digest` of the text's UTF-8 bytes: the result is the named
/// digest of the text, 32 bytes long.
#[verifier::external_body]
fn sha256_of_text(text: &str) -> (d: Vec<u8>)
    ensures
        d@ == sha256_digest(text@),
        d@.len() == 32,
{
    sha2::Sha256::digest(text.as_bytes()).to_vec()
}

/// Result of a store operation, indicating what action was taken.
#[derive(Debug, Clone, Copy, PartialEq, Eq, Structural)]
pub enum StoreResult {
    /// New memory was inserted. Contains the assigned row ID.
    Added(i64),
    /// Exact duplicate detected (same content hash). Contains existing ID.
    Duplicate(i64),
}

/// Compute the SHA-256 hash of content for deduplication: the digest in
/// lowercase hexadecimal, 64 characters.
pub fn content_hash(text: &str) -> (h: String)
    ensures
        h@ == hex_of(sha256_digest(text@)),
        h@.len() == 64,
{
    let digest = sha256_of_text(text);
    let mut h = String::new();
    push_hex(&mut h, digest.as_slice());
    proof {
        lemma_hex_len(digest@);
    }
    h
}

/// Texts with the same characters have the same content hash, so storing a
/// text a second time finds the first copy.
pub proof fn lemma_hash_determined(a: Seq<char>, b: Seq<char>)
    requires
        a == b,
    ensures
        hex_of(sha256_digest(a)) == hex_of(sha256_digest(b)),
{
}

/// What a store reports when the content-hash lookup found `existing`: a
/// duplicate of that memory; `None` means no memory has the hash and the
/// record is to be inserted.
pub fn duplicate_of(existing: Option<i64>) -> (r: Option<StoreResult>)
    ensures
        existing matches Some(id) ==> r == Some(StoreResult::Duplicate(id)),
        existing is None ==> r is None,
{
    match existing {
        Some(id) => Some(StoreResult::Duplicate(id)),
        None => None,
    }
}

} // verus!
