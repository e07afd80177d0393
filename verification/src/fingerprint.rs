//! The fingerprint of a document: its BLAKE3 hash, in hexadecimal.

use vstd::prelude::*;

use crate::text::{lower_hex, to_lower_hex};

verus! {

/// The BLAKE3 hash of `content`, 32 bytes, in its default mode: no key, no
/// context.
pub uninterp spec fn blake3_hash(content: Seq<u8>) -> Seq<u8>;

/// `blake3::hash`, turned into its 32 bytes by the `From` that the crate has
/// for that. Taken on trust: that the bytes are the BLAKE3 hash of `content`,
/// the same for the same content wherever and whenever it is computed.
#[verifier::external_body]
fn hash(content: &[u8]) -> (digest: [u8; 32])
    ensures
        digest@ == blake3_hash(content@),
{
    blake3::hash(content).into()
}

/// The fingerprint of a document with this content.
pub open spec fn fingerprint_text(content: Seq<u8>) -> Seq<char> {
    lower_hex(blake3_hash(content))
}

/// Computes the fingerprint of a document from its bytes, and from nothing else.
pub fn content_fingerprint(content: &[u8]) -> (fingerprint: String)
    ensures
        fingerprint@ == fingerprint_text(content@),
{
    let digest = hash(content);
    to_lower_hex(digest.as_slice())
}

} // verus!
