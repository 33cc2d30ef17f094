//! Laws of the ledger: what holds of every chain that the operations build,
//! and what validation reports of a chain that was tampered with.

use crate::block::{sentinel_hash, BlockView};
use crate::digest::{block_digest, block_hash};
use crate::hex::{has_leading_zeros, lemma_hex_digits_injective};
use crate::ledger::{BlockchainView, SealError};
use crate::pool::joined;
use crate::pow::{lemma_first_solution, lemma_zero_difficulty_takes_first_nonce, solves};
use crate::validate::FailedCheck;
use vstd::prelude::*;

verus! {

impl BlockchainView {
    /// Every block behind the first holds, as its previous hash, the hash of
    /// the block before it.
    pub open spec fn linked(self) -> bool {
        forall|i: int|
            1 <= i < self.chain.len() ==> (#[trigger] self.chain[i]).previous_hash
                == self.chain[i - 1].hash
    }

    /// The first block has index 0 and the sentinel in place of both hashes.
    pub open spec fn starts_at_genesis(self) -> bool {
        &&& self.chain.len() >= 1
        &&& self.chain[0].index == 0
        &&& self.chain[0].previous_hash == sentinel_hash()
        &&& self.chain[0].hash == sentinel_hash()
    }

    /// The ledger with the block at position `i` replaced by `block`.
    pub open spec fn with_replaced(self, i: int, block: BlockView) -> BlockchainView {
        BlockchainView { chain: self.chain.update(i, block), ..self }
    }
}

/// A new ledger starts at the genesis block, whatever its difficulty, and
/// meets the ledger's invariant.
pub proof fn lemma_fresh_ledger(difficulty: nat)
    ensures
        BlockchainView::fresh(difficulty).starts_at_genesis(),
        BlockchainView::fresh(difficulty).chain[0] == BlockView::genesis(),
        BlockchainView::fresh(difficulty).linked(),
        BlockchainView::fresh(difficulty).wf(),
{
}

/// No operation touches the first block: a ledger that starts at the genesis
/// block still does after a transaction is added, a block is added, or the
/// pool is sealed.
pub proof fn lemma_genesis_kept(
    ledger: BlockchainView,
    transaction: Seq<char>,
    data: Seq<char>,
    timestamp: u64,
)
    requires
        ledger.starts_at_genesis(),
    ensures
        ledger.with_pending(transaction).starts_at_genesis(),
        ledger.with_block(data, timestamp).starts_at_genesis(),
        ledger.sealed(timestamp).starts_at_genesis(),
        ledger.with_block(data, timestamp).chain[0] == ledger.chain[0],
        ledger.sealed(timestamp).chain[0] == ledger.chain[0],
{
}

/// The chain only ever grows at its end, and the difficulty never changes:
/// after a transaction is added, a block is added, or the pool is sealed, the
/// chain as it was is the beginning of the chain as it is.
pub proof fn lemma_append_only(
    ledger: BlockchainView,
    transaction: Seq<char>,
    data: Seq<char>,
    timestamp: u64,
)
    ensures
        ledger.with_pending(transaction).chain == ledger.chain,
        ledger.chain.is_prefix_of(ledger.with_block(data, timestamp).chain),
        ledger.chain.is_prefix_of(ledger.sealed(timestamp).chain),
        ledger.with_pending(transaction).difficulty == ledger.difficulty,
        ledger.with_block(data, timestamp).difficulty == ledger.difficulty,
        ledger.sealed(timestamp).difficulty == ledger.difficulty,
{
}

/// The invariant holds the chain together: in a well-formed ledger the first
/// block is at the genesis position and every later block links to the one
/// before it.
pub proof fn lemma_wf_linked(ledger: BlockchainView)
    requires
        ledger.wf(),
    ensures
        ledger.starts_at_genesis(),
        ledger.linked(),
{
    assert forall|i: int| 1 <= i < ledger.chain.len() implies (#[trigger] ledger.chain[
        i
    ]).previous_hash == ledger.chain[i - 1].hash by {
        assert(ledger.block_sound(i));
    }
}

/// Linkage survives every operation: a linked chain is still linked after a
/// transaction is added, a block is added, or the pool is sealed.
pub proof fn lemma_linkage_kept(
    ledger: BlockchainView,
    transaction: Seq<char>,
    data: Seq<char>,
    timestamp: u64,
)
    requires
        ledger.linked(),
    ensures
        ledger.with_pending(transaction).linked(),
        ledger.with_block(data, timestamp).linked(),
        ledger.sealed(timestamp).linked(),
{
    lemma_block_added_links(ledger, data, timestamp);
    lemma_block_added_links(ledger, joined(ledger.pending), timestamp);
}

/// A block added to a linked chain leaves it linked.
proof fn lemma_block_added_links(ledger: BlockchainView, data: Seq<char>, timestamp: u64)
    requires
        ledger.linked(),
    ensures
        ledger.with_block(data, timestamp).linked(),
{
    let next = ledger.with_block(data, timestamp);
    assert forall|i: int| 1 <= i < next.chain.len() implies (#[trigger] next.chain[i]).previous_hash
        == next.chain[i - 1].hash by {
        if i < ledger.chain.len() {
            assert(next.chain[i] == ledger.chain[i]);
        }
    }
}

/// What a successful search appends: one block, behind the old chain, that
/// holds the payload and timestamp given, has its position as index, links
/// to the old last block, carries the hash of its own fields, and whose hash
/// meets the difficulty.
pub proof fn lemma_added_block(ledger: BlockchainView, data: Seq<char>, timestamp: u64)
    requires
        ledger.nonce_for(data, timestamp) is Some,
    ensures
        ledger.with_block(data, timestamp).chain.len() == ledger.chain.len() + 1,
        ledger.with_block(data, timestamp).chain.drop_last() == ledger.chain,
        ledger.with_block(data, timestamp).pending == ledger.pending,
        ({
            let block = ledger.with_block(data, timestamp).chain.last();
            &&& block.index == ledger.chain.len()
            &&& block.timestamp == timestamp
            &&& block.data == data
            &&& block.previous_hash == ledger.tip_hash()
            &&& block.hash == block_hash(block.previous_hash, timestamp, data, block.nonce)
            &&& has_leading_zeros(block.hash, ledger.difficulty)
            &&& forall|earlier: u64|
                earlier < block.nonce ==> !solves(
                    block.previous_hash,
                    timestamp,
                    data,
                    ledger.difficulty,
                    earlier,
                )
        }),
{
    lemma_first_solution(ledger.tip_hash(), timestamp, data, ledger.difficulty);
    assert(ledger.with_block(data, timestamp).chain.drop_last() =~= ledger.chain);
}

/// Sealing a pool that is not empty, where the search finds a nonce, empties
/// the pool and lengthens the chain by exactly one block, whose payload is
/// the pending transactions joined in their order of arrival.
pub proof fn lemma_seal_drains_pool(ledger: BlockchainView, timestamp: u64)
    requires
        ledger.pending.len() >= 1,
        ledger.nonce_for(joined(ledger.pending), timestamp) is Some,
    ensures
        ledger.seal_outcome(timestamp) is Ok,
        ledger.sealed(timestamp).pending.len() == 0,
        ledger.sealed(timestamp).chain.len() == ledger.chain.len() + 1,
        ledger.sealed(timestamp).chain.drop_last() == ledger.chain,
        ledger.sealed(timestamp).chain.last().data == joined(ledger.pending),
        ledger.sealed(timestamp).chain.last().previous_hash == ledger.tip_hash(),
{
    lemma_added_block(ledger, joined(ledger.pending), timestamp);
}

/// Sealing an empty pool changes nothing and is no failure.
pub proof fn lemma_seal_empty_pool(ledger: BlockchainView, timestamp: u64)
    requires
        ledger.pending.len() == 0,
    ensures
        ledger.sealed(timestamp) == ledger,
        ledger.seal_outcome(timestamp) is Ok,
{
}

/// Sealing fails only where the search finds no nonce, and then the ledger,
/// pool included, is left as it was.
pub proof fn lemma_seal_failure_changes_nothing(ledger: BlockchainView, timestamp: u64)
    ensures
        ledger.seal_outcome(timestamp) is Err ==> {
            &&& ledger.seal_outcome(timestamp) == Err::<(), SealError>(SealError::SearchExhausted)
            &&& ledger.pending.len() >= 1
            &&& ledger.nonce_for(joined(ledger.pending), timestamp) is None
            &&& ledger.sealed(timestamp) == ledger
        },
{
}

/// At difficulty zero the search takes nonce 0 at once, so adding a block
/// always succeeds.
pub proof fn lemma_zero_difficulty_seals(ledger: BlockchainView, data: Seq<char>, timestamp: u64)
    requires
        ledger.difficulty == 0,
    ensures
        ledger.nonce_for(data, timestamp) == Some(0u64),
        ledger.search_outcome(data, timestamp) is Ok,
{
    lemma_zero_difficulty_takes_first_nonce(ledger.tip_hash(), timestamp, data);
}

/// A well-formed ledger passes validation.
pub proof fn lemma_wf_intact(ledger: BlockchainView)
    requires
        ledger.wf(),
    ensures
        ledger.intact(),
{
    assert forall|i: int| 1 <= i < ledger.chain.len() implies ledger.failed_check(i) is None by {
        assert(ledger.block_sound(i));
    }
}

/// Replacing the block at position `i` leaves the verdict on every block
/// before it as it was.
proof fn lemma_replacement_keeps_prefix(ledger: BlockchainView, i: int, block: BlockView)
    requires
        ledger.intact(),
        1 <= i < ledger.chain.len(),
    ensures
        ledger.with_replaced(i, block).intact_before(i),
{
    let tampered = ledger.with_replaced(i, block);
    assert forall|j: int| 1 <= j < i && j < tampered.chain.len() implies tampered.failed_check(j)
        is None by {
        assert(tampered.chain[j] == ledger.chain[j]);
        assert(tampered.chain[j - 1] == ledger.chain[j - 1]);
        assert(ledger.failed_check(j) is None);
    }
}

/// Tampering with a stored hash is detected: in a chain that passed
/// validation, giving the block at position `i` another hash makes
/// validation report a hash mismatch at `i`.
pub proof fn lemma_tampered_hash_detected(ledger: BlockchainView, i: int, hash: Seq<char>)
    requires
        ledger.intact(),
        1 <= i < ledger.chain.len(),
        hash != ledger.chain[i].hash,
    ensures
        ledger.with_replaced(i, BlockView { hash, ..ledger.chain[i] }).first_failure_is(
            i,
            FailedCheck::HashMismatch,
        ),
{
    lemma_replacement_keeps_prefix(ledger, i, BlockView { hash, ..ledger.chain[i] });
    assert(ledger.failed_check(i) is None);
}

/// Tampering with what a block holds is detected: in a chain that passed
/// validation, giving the block at position `i` another timestamp, payload
/// or nonce makes validation report a hash mismatch at `i`, provided the
/// digest of the fields as they now stand differs from the digest of the
/// fields as they were.
pub proof fn lemma_tampered_content_detected(
    ledger: BlockchainView,
    i: int,
    timestamp: u64,
    data: Seq<char>,
    nonce: u64,
)
    requires
        ledger.intact(),
        1 <= i < ledger.chain.len(),
        block_digest(ledger.chain[i].previous_hash, timestamp, data, nonce) != block_digest(
            ledger.chain[i].previous_hash,
            ledger.chain[i].timestamp,
            ledger.chain[i].data,
            ledger.chain[i].nonce,
        ),
    ensures
        ledger.with_replaced(
            i,
            BlockView { timestamp, data, nonce, ..ledger.chain[i] },
        ).first_failure_is(i, FailedCheck::HashMismatch),
{
    let stored = ledger.chain[i];
    let block = BlockView { timestamp, data, nonce, ..stored };
    lemma_replacement_keeps_prefix(ledger, i, block);
    assert(ledger.failed_check(i) is None);
    if block.recomputed_hash() == stored.hash {
        lemma_hex_digits_injective(
            block_digest(stored.previous_hash, timestamp, data, nonce),
            block_digest(stored.previous_hash, stored.timestamp, stored.data, stored.nonce),
        );
    }
}

/// Tampering with a link is detected: in a chain that passed validation,
/// giving the block at position `i` another previous hash makes validation
/// report a failure at `i`. It is a hash mismatch where the digest of the
/// fields as they now stand differs from the digest of the fields as they
/// were, and a linkage mismatch where the two digests happen to agree.
pub proof fn lemma_tampered_link_detected(
    ledger: BlockchainView,
    i: int,
    previous_hash: Seq<char>,
)
    requires
        ledger.intact(),
        1 <= i < ledger.chain.len(),
        previous_hash != ledger.chain[i].previous_hash,
    ensures
        ({
            let stored = ledger.chain[i];
            ledger.with_replaced(i, BlockView { previous_hash, ..stored }).first_failure_is(
                i,
                if block_digest(previous_hash, stored.timestamp, stored.data, stored.nonce)
                    != block_digest(
                    stored.previous_hash,
                    stored.timestamp,
                    stored.data,
                    stored.nonce,
                ) {
                    FailedCheck::HashMismatch
                } else {
                    FailedCheck::LinkageMismatch
                },
            )
        }),
{
    let stored = ledger.chain[i];
    let block = BlockView { previous_hash, ..stored };
    lemma_replacement_keeps_prefix(ledger, i, block);
    assert(ledger.failed_check(i) is None);
    if block.recomputed_hash() == stored.hash {
        lemma_hex_digits_injective(
            block_digest(previous_hash, stored.timestamp, stored.data, stored.nonce),
            block_digest(stored.previous_hash, stored.timestamp, stored.data, stored.nonce),
        );
    }
}

/// Validation does not look at a block's index: giving a block another
/// index changes the verdict on no block.
pub proof fn lemma_index_is_not_validated(ledger: BlockchainView, i: int, index: nat, j: int)
    requires
        0 <= i < ledger.chain.len(),
        1 <= j < ledger.chain.len(),
    ensures
        ledger.with_replaced(i, BlockView { index, ..ledger.chain[i] }).failed_check(j)
            == ledger.failed_check(j),
{
}

/// A block that was not mined is detected: in a chain that passed
/// validation, replacing the block at position `i` by one that is hashed and
/// linked as it should be, but under a nonce that does not solve it, makes
/// validation report unmet difficulty at `i`.
pub proof fn lemma_unmined_block_detected(
    ledger: BlockchainView,
    i: int,
    timestamp: u64,
    data: Seq<char>,
    nonce: u64,
)
    requires
        ledger.intact(),
        1 <= i < ledger.chain.len(),
        !solves(ledger.chain[i].previous_hash, timestamp, data, ledger.difficulty, nonce),
    ensures
        ledger.with_replaced(
            i,
            BlockView::hashed(
                ledger.chain[i].index,
                ledger.chain[i].previous_hash,
                timestamp,
                data,
                nonce,
            ),
        ).first_failure_is(i, FailedCheck::DifficultyUnmet),
{
    lemma_replacement_keeps_prefix(
        ledger,
        i,
        BlockView::hashed(
            ledger.chain[i].index,
            ledger.chain[i].previous_hash,
            timestamp,
            data,
            nonce,
        ),
    );
    assert(ledger.failed_check(i) is None);
}

} // verus!
