//! The one digest function behind the crate's derived identities.
//!
//! The scope id, the first content fingerprint and the filter digest a cursor
//! is signed over are all the lowercase hex of a SHA-256, so they share a
//! function and cannot disagree about what a digest of the same bytes is.

use vstd::prelude::*;

use crate::text::{hex, spec_hex, lemma_hex_len};

verus! {

/// What `ring`'s SHA-256 returns for `material`.
pub uninterp spec fn spec_sha256(material: Seq<u8>) -> Seq<u8>;

/// SHA-256 of `material` (`ring::digest::digest` with `SHA256`): the digest
/// bytes, 32 of them, as `ring` computes them.
#[verifier::external_body]
pub(crate) fn sha256(material: &[u8]) -> (d: Vec<u8>)
    ensures
        d@ == spec_sha256(material@),
        d@.len() == 32,
{
    ring::digest::digest(&ring::digest::SHA256, material).as_ref().to_vec()
}

/// The lowercase hex SHA-256 of `material`.
pub open spec fn spec_hex_digest(material: Seq<u8>) -> Seq<char> {
    spec_hex(spec_sha256(material))
}

/// The lowercase hex SHA-256 of `material`: sixty-four characters.
pub fn hex_digest(material: &[u8]) -> (out: String)
    ensures
        out@ == spec_hex_digest(material@),
        out@.len() == 64,
{
    let d = sha256(material);
    proof {
        lemma_hex_len(d@);
    }
    hex(d.as_slice())
}

} // verus!
