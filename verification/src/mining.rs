//! The proof-of-work search: the first nonce whose digest meets the difficulty.

use crate::digest::{has_leading_zeros, meets_complexity, sha256, sha256_digest, DIGEST_SIZE};
use crate::encoding::{be_bytes, push_be_u64};
use vstd::prelude::*;

verus! {

/// The end of the range of nonces that a search tries: every nonce below it.
pub const NONCE_LIMIT: u64 = 0xffff_ffff_ffff_ffff;

/// How many nonces a stepwise search tries between two reports of progress.
pub const PROGRESS_INTERVAL: u64 = 10_000;

/// A nonce together with the digest that it gives.
#[derive(Debug, Clone, Copy, PartialEq, Eq)]
pub struct ProofOfWork {
    pub nonce: u64,
    pub hash: [u8; 32],
}

/// The digest that `nonce` gives for a preimage: that of the preimage followed
/// by the eight bytes of the nonce, most significant first.
pub open spec fn nonce_digest(preimage: Seq<u8>, nonce: u64) -> Seq<u8> {
    sha256(preimage + be_bytes(nonce as nat, 8))
}

/// Whether the digest that `nonce` gives starts with `complexity` zero bytes.
pub open spec fn nonce_accepted(preimage: Seq<u8>, complexity: nat, nonce: u64) -> bool {
    has_leading_zeros(nonce_digest(preimage, nonce), complexity)
}

/// Whether no nonce from `start` up to, but not including, `end` is accepted.
pub open spec fn none_accepted(preimage: Seq<u8>, complexity: nat, start: u64, end: u64) -> bool {
    forall|nonce: u64|
        start <= nonce < end ==> !#[trigger] nonce_accepted(preimage, complexity, nonce)
}

/// Whether `nonce` is the first accepted nonce from `start` on, and lies
/// below `end`.
pub open spec fn is_first_accepted(
    preimage: Seq<u8>,
    complexity: nat,
    start: u64,
    end: u64,
    nonce: u64,
) -> bool {
    &&& start <= nonce < end
    &&& nonce_accepted(preimage, complexity, nonce)
    &&& none_accepted(preimage, complexity, start, nonce)
}

/// At most one nonce is the first accepted one.
pub proof fn lemma_first_accepted_is_unique(
    preimage: Seq<u8>,
    complexity: nat,
    start: u64,
    end: u64,
    first: u64,
    second: u64,
)
    requires
        is_first_accepted(preimage, complexity, start, end, first),
        is_first_accepted(preimage, complexity, start, end, second),
    ensures
        first == second,
{
}

/// With no zero byte asked for, every nonce is accepted, so the first one
/// tried is the first accepted.
pub proof fn lemma_zero_complexity_accepts(preimage: Seq<u8>, start: u64, end: u64)
    requires
        start < end,
    ensures
        forall|nonce: u64| nonce_accepted(preimage, 0, nonce),
        is_first_accepted(preimage, 0, start, end, start),
{
}

/// A search may stop and go on later: where no nonce from `start` up to
/// `middle` is accepted, the outcome of the search from `middle` on is the
/// outcome of the search from `start` on.
pub proof fn lemma_search_resumes(
    preimage: Seq<u8>,
    complexity: nat,
    start: u64,
    middle: u64,
    end: u64,
)
    requires
        start <= middle,
        none_accepted(preimage, complexity, start, middle),
    ensures
        none_accepted(preimage, complexity, middle, end) ==> none_accepted(
            preimage,
            complexity,
            start,
            end,
        ),
        forall|nonce: u64|
            is_first_accepted(preimage, complexity, middle, end, nonce) ==> is_first_accepted(
                preimage,
                complexity,
                start,
                end,
                nonce,
            ),
{
}

/// The end of the next stretch of a stepwise search: `PROGRESS_INTERVAL`
/// nonces behind `start`, or `NONCE_LIMIT` where fewer are left. `None` where
/// none is left, so that the search is exhausted.
pub fn window_end(start: u64) -> (end: Option<u64>)
    ensures
        end == (if start >= NONCE_LIMIT {
            None
        } else if NONCE_LIMIT - start <= PROGRESS_INTERVAL {
            Some(NONCE_LIMIT)
        } else {
            Some((start + PROGRESS_INTERVAL) as u64)
        }),
{
    if start >= NONCE_LIMIT {
        None
    } else if NONCE_LIMIT - start <= PROGRESS_INTERVAL {
        Some(NONCE_LIMIT)
    } else {
        Some(start + PROGRESS_INTERVAL)
    }
}

/// Tries the nonces from `start` up to, but not including, `end`, in order,
/// and returns the first accepted one with its digest, or `None` where none of
/// them is accepted.
pub fn find_nonce_in(preimage: &[u8], complexity: usize, start: u64, end: u64) -> (found: Option<
    ProofOfWork,
>)
    requires
        complexity <= DIGEST_SIZE,
    ensures
        match found {
            Some(work) => {
                &&& is_first_accepted(preimage@, complexity as nat, start, end, work.nonce)
                &&& work.hash@ == nonce_digest(preimage@, work.nonce)
            },
            None => none_accepted(preimage@, complexity as nat, start, end),
        },
{
    let mut input: Vec<u8> = Vec::new();
    input.extend_from_slice(preimage);
    assert(input@ =~= preimage@);
    let mut nonce: u64 = start;
    while nonce < end
        invariant
            complexity <= DIGEST_SIZE,
            start <= nonce,
            input@.subrange(0, preimage@.len() as int) == preimage@,
            input@.len() >= preimage@.len(),
            none_accepted(preimage@, complexity as nat, start, nonce),
        decreases end - nonce,
    {
        input.truncate(preimage.len());
        assert(input@ =~= preimage@);
        push_be_u64(&mut input, nonce);
        assert(input@.subrange(0, preimage@.len() as int) =~= preimage@);
        let hash = sha256_digest(input.as_slice());
        if meets_complexity(&hash, complexity) {
            return Some(ProofOfWork { nonce, hash });
        }
        nonce += 1;
    }
    None
}

} // verus!
