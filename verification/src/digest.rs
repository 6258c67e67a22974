//! SHA-256 digests and the difficulty test on them.

use sha2::Digest;
use vstd::prelude::*;

verus! {

/// The number of bytes in a digest.
pub const DIGEST_SIZE: usize = 32;

/// The SHA-256 digest of a byte sequence.
pub uninterp spec fn sha256(data: Seq<u8>) -> Seq<u8>;

/// Calls `sha2::Sha256::digest`, which feeds the whole input to a fresh hasher
/// and finalizes it. Nothing is proved of the digest: the contract only names
/// it, as the SHA-256 digest of the input bytes.
#[verifier::external_body]
pub(crate) fn sha256_digest(data: &[u8]) -> (digest: [u8; 32])
    ensures
        digest@ == sha256(data@),
{
    sha2::Sha256::digest(data).into()
}

/// Whether the first `count` bytes of `digest` are all zero.
pub open spec fn has_leading_zeros(digest: Seq<u8>, count: nat) -> bool {
    &&& count <= digest.len()
    &&& forall|i: int| 0 <= i < count ==> digest[i] == 0
}

/// The difficulty test: tells whether the first `complexity` bytes of the
/// digest are all zero.
pub fn meets_complexity(digest: &[u8; 32], complexity: usize) -> (accepted: bool)
    requires
        complexity <= DIGEST_SIZE,
    ensures
        accepted == has_leading_zeros(digest@, complexity as nat),
{
    let mut i: usize = 0;
    while i < complexity
        invariant
            i <= complexity <= DIGEST_SIZE,
            forall|j: int| 0 <= j < i ==> digest@[j] == 0,
        decreases complexity - i,
    {
        if digest[i] != 0 {
            return false;
        }
        i += 1;
    }
    true
}

} // verus!
