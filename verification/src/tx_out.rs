//! Requests for transaction outputs by public key, and the responses to them.
//!
//! `M` is the type of the messages that carry a public key in requests and responses. Nothing says
//! that what a message carries is the encoding of a key.
use vstd::prelude::*;

use crate::watcher::BlockTimestamp;

verus! {

/// A public key that was decoded to a `K`, with the message that carries that `K`.
#[derive(Debug, PartialEq, Eq)]
pub struct DecodedKey<K, M> {
    pub key: K,
    pub encoded: M,
}

/// A request for the transaction outputs with some public keys.
#[derive(Debug, PartialEq, Eq)]
pub struct TxOutRequest<M> {
    pub tx_out_pubkeys: Vec<M>,
}

/// How the search for a transaction output ended.
#[derive(Clone, Copy, Debug, PartialEq, Eq)]
pub enum TxOutResultCode {
    /// The ledger holds it.
    Found,
    /// The ledger does not hold it.
    NotFound,
    /// The public key is not one.
    MalformedRequest,
    /// The ledger could not be read.
    DatabaseError,
}

/// What a response says about one public key.
#[derive(Debug, PartialEq, Eq)]
pub struct TxOutResult<M> {
    pub tx_out_pubkey: M,
    pub result_code: TxOutResultCode,
    pub tx_out_global_index: u64,
    pub block_index: u64,
    pub timestamp: u64,
    pub timestamp_result_code: u32,
}

impl<M> TxOutResult<M> {
    /// A result that has nothing to tell beyond its code: all numbers are zero.
    pub open spec fn bare(
        tx_out_pubkey: M,
        result_code: TxOutResultCode,
    ) -> TxOutResult<M> {
        TxOutResult {
            tx_out_pubkey,
            result_code,
            tx_out_global_index: 0,
            block_index: 0,
            timestamp: 0,
            timestamp_result_code: 0,
        }
    }

    /// The result for a transaction output that was found, with the timestamp of its block.
    pub open spec fn found(
        tx_out_pubkey: M,
        tx_out_global_index: u64,
        block_index: u64,
        settled: BlockTimestamp,
    ) -> TxOutResult<M> {
        TxOutResult {
            tx_out_pubkey,
            result_code: TxOutResultCode::Found,
            tx_out_global_index,
            block_index,
            timestamp: settled.timestamp,
            timestamp_result_code: settled.timestamp_result_code,
        }
    }

    /// Builds a result that has nothing to tell beyond its code.
    pub fn new(tx_out_pubkey: M, result_code: TxOutResultCode) -> (result:
        TxOutResult<M>)
        ensures
            result == TxOutResult::bare(tx_out_pubkey, result_code),
            result.tx_out_pubkey == tx_out_pubkey,
            result.result_code == result_code,
            result.tx_out_global_index == 0,
            result.block_index == 0,
            result.timestamp == 0,
            result.timestamp_result_code == 0,
    {
        TxOutResult {
            tx_out_pubkey,
            result_code,
            tx_out_global_index: 0,
            block_index: 0,
            timestamp: 0,
            timestamp_result_code: 0,
        }
    }
}

/// The answer to a request for transaction outputs.
#[derive(Debug, PartialEq, Eq)]
pub struct TxOutResponse<M> {
    pub num_blocks: u64,
    pub global_txo_count: u64,
    pub results: Vec<TxOutResult<M>>,
}

/// What a response says.
#[verifier::ext_equal]
pub struct TxOutResponseView<M> {
    pub num_blocks: u64,
    pub global_txo_count: u64,
    pub results: Seq<TxOutResult<M>>,
}

impl<M> View for TxOutResponse<M> {
    type V = TxOutResponseView<M>;

    open spec fn view(&self) -> TxOutResponseView<M> {
        TxOutResponseView {
            num_blocks: self.num_blocks,
            global_txo_count: self.global_txo_count,
            results: self.results@,
        }
    }
}

impl<M> TxOutResponseView<M> {
    /// The response with `result` behind the results that are there.
    pub open spec fn with(self, result: TxOutResult<M>) -> TxOutResponseView<M> {
        TxOutResponseView { results: self.results.push(result), ..self }
    }
}

} // verus!
