//! Proof of work, as mathematics: which nonces solve a block, and which one
//! the search finds.
//!
//! The search tries the nonces 0, 1, 2, ... in order and stops at the first
//! whose block hash begins with `difficulty` zeros, so what it finds is the
//! least such nonce. Nonces are 64-bit; where none of them solves the block
//! there is no solution.

use crate::digest::{block_digest, block_hash};
use crate::hex::{has_leading_zeros, lemma_leading_zeros_range, HEX_WIDTH};
use vstd::prelude::*;

verus! {

/// The block hash under `nonce` begins with at least `difficulty` zeros.
pub open spec fn solves(
    previous_hash: Seq<char>,
    timestamp: u64,
    data: Seq<char>,
    difficulty: nat,
    nonce: u64,
) -> bool {
    has_leading_zeros(block_hash(previous_hash, timestamp, data, nonce), difficulty)
}

/// `nonce` solves the block and no smaller nonce does.
pub open spec fn is_first_solution(
    previous_hash: Seq<char>,
    timestamp: u64,
    data: Seq<char>,
    difficulty: nat,
    nonce: u64,
) -> bool {
    &&& solves(previous_hash, timestamp, data, difficulty, nonce)
    &&& forall|earlier: u64|
        earlier < nonce ==> !solves(previous_hash, timestamp, data, difficulty, earlier)
}

/// The least nonce that solves the block, or `None` where no nonce does.
pub open spec fn first_solution(
    previous_hash: Seq<char>,
    timestamp: u64,
    data: Seq<char>,
    difficulty: nat,
) -> Option<u64> {
    if exists|nonce: u64| is_first_solution(previous_hash, timestamp, data, difficulty, nonce) {
        Some(
            choose|nonce: u64| is_first_solution(previous_hash, timestamp, data, difficulty, nonce),
        )
    } else {
        None
    }
}

/// A nonce that solves the block and has no smaller solving nonce is the one
/// that `first_solution` names.
pub proof fn lemma_first_solution_found(
    previous_hash: Seq<char>,
    timestamp: u64,
    data: Seq<char>,
    difficulty: nat,
    nonce: u64,
)
    requires
        is_first_solution(previous_hash, timestamp, data, difficulty, nonce),
    ensures
        first_solution(previous_hash, timestamp, data, difficulty) == Some(nonce),
{
    let chosen = choose|n: u64| is_first_solution(previous_hash, timestamp, data, difficulty, n);
    assert(is_first_solution(previous_hash, timestamp, data, difficulty, chosen));
    if chosen < nonce {
        assert(!solves(previous_hash, timestamp, data, difficulty, chosen));
    }
    if nonce < chosen {
        assert(!solves(previous_hash, timestamp, data, difficulty, nonce));
    }
}

/// Where some nonce solves the block, a least solving nonce exists.
proof fn lemma_least_solution_exists(
    previous_hash: Seq<char>,
    timestamp: u64,
    data: Seq<char>,
    difficulty: nat,
    nonce: u64,
)
    requires
        solves(previous_hash, timestamp, data, difficulty, nonce),
    ensures
        exists|least: u64| is_first_solution(previous_hash, timestamp, data, difficulty, least),
    decreases nonce,
{
    if is_first_solution(previous_hash, timestamp, data, difficulty, nonce) {
    } else {
        let earlier = choose|earlier: u64|
            earlier < nonce && solves(previous_hash, timestamp, data, difficulty, earlier);
        lemma_least_solution_exists(previous_hash, timestamp, data, difficulty, earlier);
    }
}

/// What `first_solution` names: a nonce that solves the block with no solving
/// nonce below it, or, where it names none, that no nonce solves the block.
pub proof fn lemma_first_solution(
    previous_hash: Seq<char>,
    timestamp: u64,
    data: Seq<char>,
    difficulty: nat,
)
    ensures
        match first_solution(previous_hash, timestamp, data, difficulty) {
            Some(nonce) => is_first_solution(previous_hash, timestamp, data, difficulty, nonce),
            None => forall|nonce: u64|
                !solves(previous_hash, timestamp, data, difficulty, nonce),
        },
{
    if first_solution(previous_hash, timestamp, data, difficulty) is None {
        assert forall|nonce: u64| !solves(
            previous_hash,
            timestamp,
            data,
            difficulty,
            nonce,
        ) by {
            if solves(previous_hash, timestamp, data, difficulty, nonce) {
                lemma_least_solution_exists(previous_hash, timestamp, data, difficulty, nonce);
            }
        }
    }
}

/// At difficulty zero every hash qualifies, so the search stops at nonce 0.
pub proof fn lemma_zero_difficulty_takes_first_nonce(
    previous_hash: Seq<char>,
    timestamp: u64,
    data: Seq<char>,
)
    ensures
        first_solution(previous_hash, timestamp, data, 0) == Some(0u64),
{
    lemma_leading_zeros_range(block_digest(previous_hash, timestamp, data, 0), 0);
    assert(is_first_solution(previous_hash, timestamp, data, 0, 0u64));
    lemma_first_solution_found(previous_hash, timestamp, data, 0, 0u64);
}

/// A difficulty above the width of a hash can never be met.
pub proof fn lemma_difficulty_above_width_unsolvable(
    previous_hash: Seq<char>,
    timestamp: u64,
    data: Seq<char>,
    difficulty: nat,
)
    requires
        difficulty > HEX_WIDTH,
    ensures
        forall|nonce: u64| !solves(previous_hash, timestamp, data, difficulty, nonce),
        first_solution(previous_hash, timestamp, data, difficulty) is None,
{
    assert forall|nonce: u64| !solves(previous_hash, timestamp, data, difficulty, nonce) by {
        lemma_leading_zeros_range(block_digest(previous_hash, timestamp, data, nonce), difficulty);
    }
    lemma_first_solution(previous_hash, timestamp, data, difficulty);
}

} // verus!
