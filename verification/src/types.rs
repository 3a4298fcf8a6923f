//! Plain-value models of the on-chain data the sync logic reads: hashes,
//! block identifiers, node block metadata, transactions and their parts.

use vstd::prelude::*;

verus! {

/// One little-endian 8-byte window of a hash, as a byte sequence.
pub open spec fn u64_le_bytes(x: u64) -> Seq<u8> {
    seq![
        (x & 0xff) as u8,
        ((x >> 8) & 0xff) as u8,
        ((x >> 16) & 0xff) as u8,
        ((x >> 24) & 0xff) as u8,
        ((x >> 32) & 0xff) as u8,
        ((x >> 40) & 0xff) as u8,
        ((x >> 48) & 0xff) as u8,
        ((x >> 56) & 0xff) as u8,
    ]
}

/// A 32-byte hash (block hash, transaction id or Merkle node), held as four
/// little-endian 64-bit words. Its view is the 32-byte sequence.
#[derive(Clone, Copy, PartialEq, Eq, Structural, Debug, Hash)]
pub struct Hash32 {
    pub w0: u64,
    pub w1: u64,
    pub w2: u64,
    pub w3: u64,
}

impl View for Hash32 {
    type V = Seq<u8>;

    open spec fn view(&self) -> Seq<u8> {
        u64_le_bytes(self.w0) + u64_le_bytes(self.w1) + u64_le_bytes(self.w2)
            + u64_le_bytes(self.w3)
    }
}

/// A block's position and identity; equality is by both fields.
#[derive(Clone, Copy, PartialEq, Eq, Structural, Debug)]
pub struct BlockId {
    pub height: u32,
    pub hash: Hash32,
}

/// The node's metadata for one block, as the emitter reads it. A negative
/// `confirmations` is the node's signal that the block was reorged out of the
/// best chain.
#[derive(Clone, Copy, PartialEq, Eq, Structural, Debug)]
pub struct BlockInfo {
    pub hash: Hash32,
    pub height: u32,
    pub confirmations: i64,
    pub previous_block_hash: Option<Hash32>,
    pub next_block_hash: Option<Hash32>,
}

impl BlockInfo {
    /// The block id this metadata describes.
    pub open spec fn block_id(self) -> BlockId {
        BlockId { height: self.height, hash: self.hash }
    }
}

/// A reference to one output of a transaction.
#[derive(Clone, Copy, PartialEq, Eq, Structural, Debug)]
pub struct OutPoint {
    pub txid: Hash32,
    pub vout: u32,
}

/// One transaction output: its amount in satoshis and its locking script.
#[derive(Clone, Debug)]
pub struct TxOut {
    pub value: u64,
    pub script_pubkey: Vec<u8>,
}

/// A transaction, reduced to what the sync logic reads: its id, the
/// outpoints its inputs spend, and its outputs.
#[derive(Clone, Debug)]
pub struct Tx {
    pub txid: Hash32,
    pub inputs: Vec<OutPoint>,
    pub outputs: Vec<TxOut>,
}

/// One verbose-mempool entry: when the transaction was first seen, and the
/// chain height at which it entered the mempool.
#[derive(Clone, Copy, PartialEq, Eq, Structural, Debug)]
pub struct MempoolEntry {
    pub txid: Hash32,
    pub time: u64,
    pub height: u64,
}

/// One entry of a script's history as the index server reports it. A height
/// of zero or below means the transaction is unconfirmed.
#[derive(Clone, Copy, PartialEq, Eq, Structural, Debug)]
pub struct HistoryEntry {
    pub tx_hash: Hash32,
    pub height: i32,
}

/// A block header, reduced to the fields that determine its hash and the
/// fields the anchor logic reads.
#[derive(Clone, Copy, PartialEq, Eq, Structural, Debug)]
pub struct Header {
    pub version: i32,
    pub prev_blockhash: Hash32,
    pub merkle_root: Hash32,
    pub time: u32,
    pub bits: u32,
    pub nonce: u32,
}

/// A Merkle inclusion proof as the index server returns it: the confirming
/// block's height, the transaction's position in that block, and the path of
/// sibling hashes from leaf to root.
#[derive(Clone, Debug)]
pub struct MerkleProof {
    pub block_height: u32,
    pub pos: usize,
    pub merkle: Vec<Hash32>,
}

/// Evidence that a transaction is in a specific block: produced only after
/// Merkle verification against a header fetched at the stated height.
#[derive(Clone, Copy, PartialEq, Eq, Structural, Debug)]
pub struct ConfirmationTimeHeightAnchor {
    pub confirmation_height: u32,
    pub confirmation_time: u64,
    pub anchor_block: BlockId,
}

} // verus!
