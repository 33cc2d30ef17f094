//! The ledger: an append-only chain of blocks, a pool of pending
//! transactions, and the sealing of the pool into a new block by a
//! proof-of-work search.

use crate::block::{genesis_data, sentinel_hash, Block, BlockView};
use crate::clock::current_timestamp;
use crate::digest::{block_hash, digest_fields};
use crate::hex::{has_leading_zeros, starts_with_zeros, to_hex, HEX_WIDTH};
use crate::pool::{join_transactions, joined, texts};
use crate::pow::{
    first_solution, is_first_solution, lemma_difficulty_above_width_unsolvable,
    lemma_first_solution, lemma_first_solution_found, solves,
};
use vstd::prelude::*;
use vstd::string::*;

verus! {

/// The ledger. Its chain starts with the genesis block and only ever grows;
/// its pool holds the transactions that the next sealed block will carry.
#[derive(Debug, Clone)]
pub struct Blockchain {
    /// The blocks, genesis first.
    pub chain: Vec<Block>,
    /// The pending pool, in order of arrival.
    pub pending_transactions: Vec<String>,
    /// Leading zeros that the hash of a sealed block must show.
    pub difficulty: usize,
}

/// The ledger as a mathematical value.
pub struct BlockchainView {
    pub chain: Seq<BlockView>,
    pub pending: Seq<Seq<char>>,
    pub difficulty: nat,
}

/// Why a block could not be sealed.
#[derive(Debug, Clone, Copy, PartialEq, Eq)]
pub enum SealError {
    /// The host's clock stands before the Unix epoch.
    ClockFault,
    /// No 64-bit nonce gives a hash that meets the difficulty.
    SearchExhausted,
}

impl View for Blockchain {
    type V = BlockchainView;

    open spec fn view(&self) -> BlockchainView {
        BlockchainView {
            chain: Seq::new(self.chain@.len(), |i: int| self.chain@[i]@),
            pending: texts(self.pending_transactions@),
            difficulty: self.difficulty as nat,
        }
    }
}

impl BlockchainView {
    /// A new ledger: the genesis block alone, and an empty pool.
    pub open spec fn fresh(difficulty: nat) -> BlockchainView {
        BlockchainView { chain: seq![BlockView::genesis()], pending: Seq::empty(), difficulty }
    }

    /// The hash of the last block: what the next block links to.
    pub open spec fn tip_hash(self) -> Seq<char> {
        self.chain.last().hash
    }

    /// The chain has a last block to link to, and the position behind it
    /// still fits a block's index.
    pub open spec fn can_grow(self) -> bool {
        1 <= self.chain.len() <= u32::MAX
    }

    /// The ledger with one more pending transaction.
    pub open spec fn with_pending(self, transaction: Seq<char>) -> BlockchainView {
        BlockchainView { pending: self.pending.push(transaction), ..self }
    }

    /// The nonce that the search finds for a block with `data`, sealed at
    /// `timestamp` behind the current last block; `None` where no nonce meets
    /// the difficulty.
    pub open spec fn nonce_for(self, data: Seq<char>, timestamp: u64) -> Option<u64> {
        first_solution(self.tip_hash(), timestamp, data, self.difficulty)
    }

    /// How an attempt to add a block with `data` at `timestamp` ends.
    pub open spec fn search_outcome(self, data: Seq<char>, timestamp: u64) -> Result<
        (),
        SealError,
    > {
        if self.nonce_for(data, timestamp) is Some {
            Ok(())
        } else {
            Err(SealError::SearchExhausted)
        }
    }

    /// The ledger after an attempt to add a block with `data` at `timestamp`:
    /// one block longer where the search finds a nonce, unchanged where it
    /// finds none. The pool is left as it is.
    pub open spec fn with_block(self, data: Seq<char>, timestamp: u64) -> BlockchainView {
        match self.nonce_for(data, timestamp) {
            Some(nonce) => BlockchainView {
                chain: self.chain.push(
                    BlockView::hashed(self.chain.len(), self.tip_hash(), timestamp, data, nonce),
                ),
                ..self
            },
            None => self,
        }
    }

    /// How an attempt to seal the pool at `timestamp` ends. An empty pool is
    /// no failure: there is nothing to do.
    pub open spec fn seal_outcome(self, timestamp: u64) -> Result<(), SealError> {
        if self.pending.len() == 0 {
            Ok(())
        } else {
            self.search_outcome(joined(self.pending), timestamp)
        }
    }

    /// The ledger after an attempt to seal the pool at `timestamp`. With an
    /// empty pool, or where the search finds no nonce, nothing changes.
    /// Otherwise the chain gains one block that carries the joined pool, and
    /// the pool is emptied.
    pub open spec fn sealed(self, timestamp: u64) -> BlockchainView {
        if self.pending.len() == 0 || self.nonce_for(joined(self.pending), timestamp) is None {
            self
        } else {
            BlockchainView {
                pending: Seq::empty(),
                ..self.with_block(joined(self.pending), timestamp)
            }
        }
    }

    /// The block at position `i` links to the block before it, carries the
    /// hash of its own fields, and that hash meets the difficulty.
    pub open spec fn block_sound(self, i: int) -> bool {
        let block = self.chain[i];
        &&& block.previous_hash == self.chain[i - 1].hash
        &&& block.hash == block.recomputed_hash()
        &&& has_leading_zeros(block.hash, self.difficulty)
    }

    /// The ledger's invariant: the chain is not empty; its first block has
    /// index 0 and the sentinel in place of both hashes; every block's index
    /// is its position; and every block behind the first is sound.
    pub open spec fn wf(self) -> bool {
        &&& self.chain.len() >= 1
        &&& self.chain[0].previous_hash == sentinel_hash()
        &&& self.chain[0].hash == sentinel_hash()
        &&& forall|i: int| 0 <= i < self.chain.len() ==> (#[trigger] self.chain[i]).index == i
        &&& forall|i: int| 1 <= i < self.chain.len() ==> #[trigger] self.block_sound(i)
    }

    /// Adding a block keeps the invariant.
    pub proof fn lemma_with_block_wf(self, data: Seq<char>, timestamp: u64)
        requires
            self.wf(),
        ensures
            self.with_block(data, timestamp).wf(),
    {
        let next = self.with_block(data, timestamp);
        if let Some(nonce) = self.nonce_for(data, timestamp) {
            let last = self.chain.len() as int;
            lemma_first_solution(self.tip_hash(), timestamp, data, self.difficulty);
            assert forall|i: int| 0 <= i < next.chain.len() implies (#[trigger] next.chain[i]).index
                == i by {
                if i < last {
                    assert(next.chain[i] == self.chain[i]);
                }
            }
            assert forall|i: int| 1 <= i < next.chain.len() implies #[trigger] next.block_sound(
                i,
            ) by {
                if i < last {
                    assert(self.block_sound(i));
                }
            }
        }
    }

    /// Sealing the pool keeps the invariant.
    pub proof fn lemma_sealed_wf(self, timestamp: u64)
        requires
            self.wf(),
        ensures
            self.sealed(timestamp).wf(),
    {
        let data = joined(self.pending);
        self.lemma_with_block_wf(data, timestamp);
        let grown = self.with_block(data, timestamp);
        let next = self.sealed(timestamp);
        assert forall|i: int| 1 <= i < next.chain.len() implies #[trigger] next.block_sound(i) by {
            if self.pending.len() == 0 || self.nonce_for(data, timestamp) is None {
                assert(self.block_sound(i));
            } else {
                assert(grown.block_sound(i));
            }
        }
    }
}

impl Blockchain {
    /// Creates a ledger that holds the genesis block alone and an empty pool.
    /// The difficulty is stored as given.
    pub fn new(difficulty: usize) -> (ledger: Blockchain)
        ensures
            ledger@ == BlockchainView::fresh(difficulty as nat),
            ledger@.wf(),
    {
        let genesis_block = Block {
            index: 0,
            timestamp: 0,
            data: "Genesis Block".to_string(),
            previous_hash: "0".to_string(),
            hash: "0".to_string(),
            nonce: 0,
        };
        proof {
            reveal_strlit("Genesis Block");
            reveal_strlit("0");
            assert(genesis_block.data@ =~= genesis_data());
            assert(genesis_block.hash@ =~= sentinel_hash());
            assert(genesis_block.previous_hash@ =~= sentinel_hash());
        }
        let mut chain: Vec<Block> = Vec::new();
        chain.push(genesis_block);
        let ledger = Blockchain { chain, pending_transactions: Vec::new(), difficulty };
        proof {
            assert(ledger@.chain =~= seq![BlockView::genesis()]);
            assert(ledger@.pending =~= Seq::empty());
        }
        ledger
    }

    /// Computes the hash of a block from the four fields that it covers: the
    /// digest of the fields as sixteen lowercase hexadecimal digits.
    pub fn calculate_hash(
        &self,
        previous_hash: &str,
        timestamp: u64,
        data: &str,
        nonce: u64,
    ) -> (hash: String)
        ensures
            hash@ == block_hash(previous_hash@, timestamp, data@, nonce),
    {
        to_hex(digest_fields(previous_hash, timestamp, data, nonce))
    }

    /// Tells whether `hash` meets the ledger's difficulty: whether it begins
    /// with at least that many characters `'0'`.
    pub fn is_valid_hash(&self, hash: &str) -> (valid: bool)
        ensures
            valid == has_leading_zeros(hash@, self.difficulty as nat),
    {
        starts_with_zeros(hash, self.difficulty)
    }

    /// Searches for the nonce of a block: tries 0, 1, 2, ... and returns the
    /// first nonce whose hash meets the difficulty, with that hash. Returns
    /// `None` where no 64-bit nonce does; for a difficulty above the width of
    /// a hash that is known without a search.
    pub fn mine_block(&self, previous_hash: String, timestamp: u64, data: String) -> (found: Option<
        (u64, String),
    >)
        ensures
            found matches Some((nonce, hash)) ==> {
                &&& hash@ == block_hash(previous_hash@, timestamp, data@, nonce)
                &&& has_leading_zeros(hash@, self.difficulty as nat)
                &&& is_first_solution(
                    previous_hash@,
                    timestamp,
                    data@,
                    self.difficulty as nat,
                    nonce,
                )
            },
            found is None ==> forall|nonce: u64|
                !solves(previous_hash@, timestamp, data@, self.difficulty as nat, nonce),
            first_solution(previous_hash@, timestamp, data@, self.difficulty as nat) == (match found
            {
                Some((nonce, _)) => Some(nonce),
                None => None,
            }),
    {
        let ghost difficulty = self.difficulty as nat;
        if self.difficulty > HEX_WIDTH {
            proof {
                lemma_difficulty_above_width_unsolvable(
                    previous_hash@,
                    timestamp,
                    data@,
                    difficulty,
                );
            }
            return None;
        }
        let mut nonce: u64 = 0;
        loop
            invariant
                difficulty == self.difficulty as nat,
                forall|earlier: u64|
                    earlier < nonce ==> !solves(
                        previous_hash@,
                        timestamp,
                        data@,
                        difficulty,
                        earlier,
                    ),
            decreases u64::MAX - nonce,
        {
            let hash = self.calculate_hash(previous_hash.as_str(), timestamp, data.as_str(), nonce);
            if self.is_valid_hash(hash.as_str()) {
                proof {
                    lemma_first_solution_found(previous_hash@, timestamp, data@, difficulty, nonce);
                }
                return Some((nonce, hash));
            }
            if nonce == u64::MAX {
                proof {
                    lemma_first_solution(previous_hash@, timestamp, data@, difficulty);
                }
                return None;
            }
            nonce += 1;
        }
    }

    /// Appends `transaction` to the pending pool. The chain is not touched.
    pub fn add_transaction(&mut self, transaction: String)
        ensures
            final(self)@ == old(self)@.with_pending(transaction@),
            old(self)@.wf() ==> final(self)@.wf(),
    {
        self.pending_transactions.push(transaction);
        proof {
            assert(self@.chain =~= old(self)@.chain);
            assert(self@.pending =~= old(self)@.pending.push(transaction@));
            let before = old(self)@;
            let now = self@;
            if before.wf() {
                assert forall|i: int| 1 <= i < now.chain.len() implies #[trigger] now.block_sound(
                    i,
                ) by {
                    assert(before.block_sound(i));
                }
            }
        }
    }

    /// Mines a block that holds `data`, stamped `timestamp`, and appends it
    /// to the chain. Where the search finds no nonce the ledger is left as it
    /// was and the error says so.
    pub fn add_block_at(&mut self, data: String, timestamp: u64) -> (result: Result<(), SealError>)
        requires
            old(self)@.can_grow(),
        ensures
            final(self)@ == old(self)@.with_block(data@, timestamp),
            result == old(self)@.search_outcome(data@, timestamp),
            old(self)@.wf() ==> final(self)@.wf(),
    {
        proof {
            if old(self)@.wf() {
                old(self)@.lemma_with_block_wf(data@, timestamp);
            }
        }
        let previous_hash = self.chain[self.chain.len() - 1].hash.clone();
        match self.mine_block(previous_hash.clone(), timestamp, data.clone()) {
            Some((nonce, hash)) => {
                let ghost sealed = BlockView::hashed(
                    old(self)@.chain.len(),
                    old(self)@.tip_hash(),
                    timestamp,
                    data@,
                    nonce,
                );
                let block = Block {
                    index: self.chain.len() as u32,
                    timestamp,
                    data,
                    previous_hash,
                    hash,
                    nonce,
                };
                assert(block@ == sealed);
                self.chain.push(block);
                proof {
                    assert(self@.chain =~= old(self)@.chain.push(sealed));
                    assert(self@.pending =~= old(self)@.pending);
                }
                Ok(())
            },
            None => {
                proof {
                    assert(self@.chain =~= old(self)@.chain);
                    assert(self@.pending =~= old(self)@.pending);
                }
                Err(SealError::SearchExhausted)
            },
        }
    }

    /// Mines a block that holds `data`, stamped with the current time, and
    /// appends it to the chain. Where the clock cannot be read, or the search
    /// finds no nonce, the ledger is left as it was and the error says which.
    pub fn add_block(&mut self, data: String) -> (result: Result<(), SealError>)
        requires
            old(self)@.can_grow(),
        ensures
            result == Err::<(), SealError>(SealError::ClockFault) ==> final(self)@ == old(self)@,
            result != Err::<(), SealError>(SealError::ClockFault) ==> exists|timestamp: u64|
                {
                    &&& final(self)@ == #[trigger] old(self)@.with_block(data@, timestamp)
                    &&& result == old(self)@.search_outcome(data@, timestamp)
                },
            old(self)@.wf() ==> final(self)@.wf(),
    {
        match current_timestamp() {
            Some(timestamp) => self.add_block_at(data, timestamp),
            None => Err(SealError::ClockFault),
        }
    }

    /// Seals the pending pool into a block stamped `timestamp`. With an empty
    /// pool nothing happens. Otherwise the transactions are joined in order
    /// into one payload, a block that holds it is mined and appended, and the
    /// pool is emptied; where the search finds no nonce the ledger is left as
    /// it was, pool included, and the error says so.
    pub fn mine_and_add_block_at(&mut self, timestamp: u64) -> (result: Result<(), SealError>)
        requires
            old(self)@.pending.len() > 0 ==> old(self)@.can_grow(),
        ensures
            final(self)@ == old(self)@.sealed(timestamp),
            result == old(self)@.seal_outcome(timestamp),
            old(self)@.wf() ==> final(self)@.wf(),
    {
        proof {
            if old(self)@.wf() {
                old(self)@.lemma_sealed_wf(timestamp);
            }
        }
        if self.pending_transactions.len() == 0 {
            return Ok(());
        }
        let data = join_transactions(&self.pending_transactions);
        match self.add_block_at(data, timestamp) {
            Ok(()) => {
                self.pending_transactions.clear();
                proof {
                    assert(self@.chain =~= old(self)@.with_block(
                        joined(old(self)@.pending),
                        timestamp,
                    ).chain);
                    assert(self@.pending =~= Seq::empty());
                }
                Ok(())
            },
            Err(error) => Err(error),
        }
    }

    /// Seals the pending pool into a block stamped with the current time.
    /// With an empty pool nothing happens and the clock is not read. Where the
    /// clock cannot be read, or the search finds no nonce, the ledger is left
    /// as it was, pool included, and the error says which.
    pub fn mine_and_add_block(&mut self) -> (result: Result<(), SealError>)
        requires
            old(self)@.pending.len() > 0 ==> old(self)@.can_grow(),
        ensures
            old(self)@.pending.len() == 0 ==> result is Ok && final(self)@ == old(self)@,
            result == Err::<(), SealError>(SealError::ClockFault) ==> final(self)@ == old(self)@,
            result != Err::<(), SealError>(SealError::ClockFault) ==> exists|timestamp: u64|
                {
                    &&& final(self)@ == #[trigger] old(self)@.sealed(timestamp)
                    &&& result == old(self)@.seal_outcome(timestamp)
                },
            old(self)@.pending.len() > 0 && result is Ok ==> {
                &&& final(self)@.pending.len() == 0
                &&& final(self)@.chain.len() == old(self)@.chain.len() + 1
                &&& final(self)@.chain.last().data == joined(old(self)@.pending)
                &&& final(self)@.chain.last().previous_hash == old(self)@.tip_hash()
            },
            old(self)@.wf() ==> final(self)@.wf(),
    {
        if self.pending_transactions.len() == 0 {
            // With an empty pool the outcome is the same at every timestamp.
            assert(self@ == old(self)@.sealed(0));
            return Ok(());
        }
        match current_timestamp() {
            Some(timestamp) => self.mine_and_add_block_at(timestamp),
            None => Err(SealError::ClockFault),
        }
    }
}

} // verus!
