//! Content fingerprints: the SHA-256 digest of a text, written as lowercase
//! hexadecimal.

use sha2::{Digest, Sha256};
use vstd::prelude::*;

verus! {

/// The lowercase hexadecimal SHA-256 digest of the UTF-8 encoding of `content`.
pub uninterp spec fn sha256_hex(content: Seq<char>) -> Seq<char>;

/// Number of characters in a fingerprint: two per digest byte.
pub const FINGERPRINT_LEN: usize = 64;

/// Whether `c` is one of `0`..`9`, `a`..`f`.
pub open spec fn is_lower_hex(c: char) -> bool {
    ('0' <= c && c <= '9') || ('a' <= c && c <= 'f')
}

/// Calls `sha2::Sha256::digest` on the bytes of `content` and formats the
/// digest with the `LowerHex` impl of `generic_array::GenericArray`.
///
/// Trusted: the result is the digest named by [`sha256_hex`], it has two
/// characters for each of the 32 digest bytes, and every character is a
/// lowercase hexadecimal digit.
#[verifier::external_body]
fn sha256_hex_digest(content: &str) -> (digest: String)
    ensures
        digest@ == sha256_hex(content@),
        digest@.len() == FINGERPRINT_LEN,
        forall|i: int| 0 <= i < digest@.len() ==> is_lower_hex(#[trigger] digest@[i]),
{
    format!("{:x}", Sha256::digest(content.as_bytes()))
}

/// Fingerprint of `content`: content-exact, with no normalisation of
/// whitespace or line endings.
pub fn calculate_hash(content: &str) -> (hash: String)
    ensures
        hash@ == sha256_hex(content@),
        hash@.len() == FINGERPRINT_LEN,
        forall|i: int| 0 <= i < hash@.len() ==> is_lower_hex(#[trigger] hash@[i]),
{
    sha256_hex_digest(content)
}

/// Fingerprints are determined by the text alone: equal texts have equal
/// fingerprints, however often and wherever they are computed.
pub proof fn lemma_fingerprint_deterministic(a: &str, b: &str)
    requires
        a@ == b@,
    ensures
        sha256_hex(a@) == sha256_hex(b@),
{
}

} // verus!
