//! Blockchain-sync core for a wallet-side data pipeline.
//!
//! Converts observations from a Bitcoin full node (RPC) or an Electrum-style
//! index server into incremental updates to a local checkpoint chain and a
//! transaction graph. The node- and index-facing I/O is driven by a thin
//! outer layer; the state machines and reconciliation rules live here.

use vstd::prelude::*;

pub mod types;
pub mod checkpoint;
pub mod emitter;
pub mod graph;
pub mod scan;
pub mod tip_sync;

verus! {

/// Model of a node RPC failure, as the emitter classifies it: a JSON-RPC
/// error with its code, or any other transport failure.
#[derive(Clone, Copy, PartialEq, Eq, Structural, Debug)]
pub enum RpcError {
    JsonRpc { code: i64 },
    Transport,
}

/// The JSON-RPC code with which the node signals that a transaction or block
/// is not in its index.
pub const NOT_FOUND_RPC_CODE: i64 = -5;

/// Extends node RPC errors with the "not found" classification used to drop
/// mempool races against confirmation or eviction.
pub trait BitcoindRpcErrorExt {
    /// What the classification means for the implementing error type.
    spec fn spec_is_not_found(&self) -> bool;

    /// Returns whether the error is a "not found" error.
    fn is_not_found_error(&self) -> (r: bool)
        ensures
            r == self.spec_is_not_found(),
    ;
}

impl BitcoindRpcErrorExt for RpcError {
    open spec fn spec_is_not_found(&self) -> bool {
        self matches RpcError::JsonRpc { code } && code == NOT_FOUND_RPC_CODE
    }

    fn is_not_found_error(&self) -> (r: bool) {
        match self {
            RpcError::JsonRpc { code } => *code == NOT_FOUND_RPC_CODE,
            _ => false,
        }
    }
}

} // verus!
