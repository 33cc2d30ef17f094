//! Integrity validation: replaying the hash of every stored block to find
//! out whether the chain was tampered with.
//!
//! Each block behind the genesis block is put to three checks, in this order:
//! its stored hash is the hash of its stored fields; its previous hash is the
//! stored hash of the block before it; its hash meets the difficulty. The
//! first check that fails, at the first block where one fails, is reported.
//! Nothing is repaired. The genesis block is put to no check of its own, and
//! no check covers a block's index.

use crate::hex::has_leading_zeros;
use crate::ledger::{Blockchain, BlockchainView};
use vstd::prelude::*;
use vstd::string::*;

verus! {

/// The check that a block failed.
#[derive(Debug, Clone, Copy, PartialEq, Eq)]
pub enum FailedCheck {
    /// The stored hash is not the hash of the stored fields.
    HashMismatch,
    /// The stored previous hash is not the hash of the block before.
    LinkageMismatch,
    /// The hash does not meet the ledger's difficulty.
    DifficultyUnmet,
}

/// The first violation found in a chain.
#[derive(Debug, Clone, Copy, PartialEq, Eq)]
pub struct ValidationFailure {
    /// Position of the offending block in the chain.
    pub index: usize,
    /// The first check that the block failed.
    pub check: FailedCheck,
}

impl BlockchainView {
    /// The first check that the block at position `i` fails, or `None` where
    /// it passes all three. Meant for positions behind the genesis block.
    pub open spec fn failed_check(self, i: int) -> Option<FailedCheck> {
        let block = self.chain[i];
        if block.hash != block.recomputed_hash() {
            Some(FailedCheck::HashMismatch)
        } else if block.previous_hash != self.chain[i - 1].hash {
            Some(FailedCheck::LinkageMismatch)
        } else if !has_leading_zeros(block.recomputed_hash(), self.difficulty) {
            Some(FailedCheck::DifficultyUnmet)
        } else {
            None
        }
    }

    /// Every block behind the genesis block, up to but not including
    /// position `end`, passes all checks.
    pub open spec fn intact_before(self, end: int) -> bool {
        forall|i: int| 1 <= i < end && i < self.chain.len() ==> self.failed_check(i) is None
    }

    /// Every block behind the genesis block passes all checks.
    pub open spec fn intact(self) -> bool {
        self.intact_before(self.chain.len() as int)
    }

    /// The block at position `i` is the first that fails a check, and `check`
    /// is the first check that it fails.
    pub open spec fn first_failure_is(self, i: int, check: FailedCheck) -> bool {
        &&& 1 <= i < self.chain.len()
        &&& self.intact_before(i)
        &&& self.failed_check(i) == Some(check)
    }
}

impl Blockchain {
    /// Validates the chain. Returns `Ok` where every block behind the genesis
    /// block passes all three checks, else the position of the first block
    /// that fails one, with the first check it fails.
    pub fn validate(&self) -> (result: Result<(), ValidationFailure>)
        ensures
            match result {
                Ok(()) => self@.intact(),
                Err(failure) => self@.first_failure_is(failure.index as int, failure.check),
            },
    {
        let mut i: usize = 1;
        while i < self.chain.len()
            invariant
                1 <= i,
                self@.intact_before(i as int),
            decreases self.chain.len() - i,
        {
            let block = &self.chain[i];
            let previous = &self.chain[i - 1];
            assert(self@.chain[i as int] == block@);
            assert(self@.chain[i - 1] == previous@);
            let recomputed = self.calculate_hash(
                block.previous_hash.as_str(),
                block.timestamp,
                block.data.as_str(),
                block.nonce,
            );
            if !(recomputed == block.hash) {
                return Err(ValidationFailure { index: i, check: FailedCheck::HashMismatch });
            }
            if !(block.previous_hash == previous.hash) {
                return Err(ValidationFailure { index: i, check: FailedCheck::LinkageMismatch });
            }
            if !self.is_valid_hash(recomputed.as_str()) {
                return Err(ValidationFailure { index: i, check: FailedCheck::DifficultyUnmet });
            }
            i += 1;
        }
        Ok(())
    }
}

} // verus!
