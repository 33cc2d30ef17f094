//! Blocks: the entries of the ledger, and what a block is as a mathematical
//! value.

use crate::digest::block_hash;
use vstd::prelude::*;

verus! {

/// One entry of the ledger. A block is linked to its predecessor by
/// `previous_hash` and carries the hash of its own fields.
#[derive(Debug, Clone)]
pub struct Block {
    /// Position in the chain, counted from 0.
    pub index: u32,
    /// Unix seconds at which the block was sealed.
    pub timestamp: u64,
    /// The payload: the sealed transactions, joined.
    pub data: String,
    /// The hash of the block before this one.
    pub previous_hash: String,
    /// The hash of this block.
    pub hash: String,
    /// The nonce under which the hash was found.
    pub nonce: u64,
}

/// A block as a mathematical value: its texts as sequences of characters.
pub struct BlockView {
    pub index: nat,
    pub timestamp: u64,
    pub data: Seq<char>,
    pub previous_hash: Seq<char>,
    pub hash: Seq<char>,
    pub nonce: u64,
}

impl View for Block {
    type V = BlockView;

    open spec fn view(&self) -> BlockView {
        BlockView {
            index: self.index as nat,
            timestamp: self.timestamp,
            data: self.data@,
            previous_hash: self.previous_hash@,
            hash: self.hash@,
            nonce: self.nonce,
        }
    }
}

/// The text `"0"`: what the genesis block holds in place of a hash, its own
/// and its predecessor's.
pub open spec fn sentinel_hash() -> Seq<char> {
    seq!['0']
}

/// The payload of the genesis block.
pub open spec fn genesis_data() -> Seq<char> {
    seq!['G', 'e', 'n', 'e', 's', 'i', 's', ' ', 'B', 'l', 'o', 'c', 'k']
}

impl BlockView {
    /// The genesis block: the fixed first entry of every chain. It is not
    /// mined; its hashes are the sentinel.
    pub open spec fn genesis() -> BlockView {
        BlockView {
            index: 0,
            timestamp: 0,
            data: genesis_data(),
            previous_hash: sentinel_hash(),
            hash: sentinel_hash(),
            nonce: 0,
        }
    }

    /// The block at position `index`, behind a block with hash
    /// `previous_hash`, that holds `data` and carries the hash of its fields
    /// under `nonce`.
    pub open spec fn hashed(
        index: nat,
        previous_hash: Seq<char>,
        timestamp: u64,
        data: Seq<char>,
        nonce: u64,
    ) -> BlockView {
        BlockView {
            index,
            timestamp,
            data,
            previous_hash,
            hash: block_hash(previous_hash, timestamp, data, nonce),
            nonce,
        }
    }

    /// The hash that this block's stored fields give.
    pub open spec fn recomputed_hash(self) -> Seq<char> {
        block_hash(self.previous_hash, self.timestamp, self.data, self.nonce)
    }
}

} // verus!
