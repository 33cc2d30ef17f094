//! A single-writer, in-memory, append-only ledger whose blocks are sealed by a
//! proof-of-work search and linked by their hashes.
//!
//! The modules, leaves first:
//! - [`hex`]: fixed-width hexadecimal rendering and the leading-zero test;
//! - [`digest`]: the digest of the four fields that a block's hash covers;
//! - [`pow`]: which nonces solve a block, and which one the search finds;
//! - [`pool`]: the payload that pending transactions are joined into;
//! - [`clock`]: the wall-clock read;
//! - [`block`]: blocks and what they are as mathematical values;
//! - [`ledger`]: the chain, the pending pool, mining and sealing;
//! - [`validate`]: the integrity check over a stored chain;
//! - [`laws`]: what holds of every chain that the operations build, and what
//!   validation reports of a chain that was tampered with.

pub mod block;
pub mod clock;
pub mod digest;
pub mod hex;
pub mod laws;
pub mod ledger;
pub mod pool;
pub mod pow;
pub mod validate;

pub use block::Block;
pub use clock::current_timestamp;
pub use ledger::{Blockchain, SealError};
pub use validate::{FailedCheck, ValidationFailure};
