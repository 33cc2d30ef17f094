//! The digest of a block: a 64-bit value computed by the standard library's
//! default hasher over the four fields that a block's hash covers.
//!
//! The fields are fed to the hasher in a fixed order and framing, so that the
//! digest depends on each of them and on their order: the text of the
//! previous hash, a terminator byte, the timestamp in little-endian bytes, the
//! text of the payload, a terminator byte, the nonce in little-endian bytes.
//! The terminator `0xff` occurs in no UTF-8 text, which keeps a text field
//! from running into the field after it.

use crate::hex::hex_digits;
use std::collections::hash_map::DefaultHasher;
use std::hash::Hasher;
use vstd::bytes::{spec_u64_to_le_bytes, u64_to_le_bytes};
use vstd::prelude::*;
use vstd::std_specs::hash::DefaultHasherAdditionalSpecFns;
use vstd::string::*;
use vstd::utf8::encode_utf8;

verus! {

/// The byte that closes a text field in the hasher's input.
pub const TEXT_END: u8 = 0xff;

/// The writes made to the hasher for one block, in order.
pub open spec fn hashed_fields(
    previous_hash: Seq<char>,
    timestamp: u64,
    data: Seq<char>,
    nonce: u64,
) -> Seq<Seq<u8>> {
    seq![
        encode_utf8(previous_hash),
        seq![TEXT_END],
        spec_u64_to_le_bytes(timestamp),
        encode_utf8(data),
        seq![TEXT_END],
        spec_u64_to_le_bytes(nonce),
    ]
}

/// The 64-bit digest of a block's hashed fields.
pub open spec fn block_digest(
    previous_hash: Seq<char>,
    timestamp: u64,
    data: Seq<char>,
    nonce: u64,
) -> u64 {
    DefaultHasher::spec_finish(hashed_fields(previous_hash, timestamp, data, nonce))
}

/// The hash of a block as it is stored: its digest in sixteen lowercase
/// hexadecimal digits.
pub open spec fn block_hash(
    previous_hash: Seq<char>,
    timestamp: u64,
    data: Seq<char>,
    nonce: u64,
) -> Seq<char> {
    hex_digits(block_digest(previous_hash, timestamp, data, nonce))
}

/// Computes the digest of a block's hashed fields.
pub fn digest_fields(previous_hash: &str, timestamp: u64, data: &str, nonce: u64) -> (digest: u64)
    ensures
        digest == block_digest(previous_hash@, timestamp, data@, nonce),
{
    let text_end: [u8; 1] = [TEXT_END];
    let timestamp_bytes = u64_to_le_bytes(timestamp);
    let nonce_bytes = u64_to_le_bytes(nonce);
    let mut hasher = DefaultHasher::new();
    hasher.write(previous_hash.as_bytes());
    hasher.write(text_end.as_slice());
    hasher.write(timestamp_bytes.as_slice());
    hasher.write(data.as_bytes());
    hasher.write(text_end.as_slice());
    hasher.write(nonce_bytes.as_slice());
    proof {
        assert(text_end@ =~= seq![TEXT_END]);
        assert(hasher@ =~= hashed_fields(previous_hash@, timestamp, data@, nonce));
    }
    hasher.finish()
}

} // verus!
