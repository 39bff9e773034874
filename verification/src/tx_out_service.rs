//! The service that looks transaction outputs up by their public keys.
//!
//! The ledger, the watcher, the decoding of keys, the clock and the network are the caller's. A
//! request becomes a [`TxOutRun`], which always has one question open ([`TxOutRun::query`]); the
//! caller finds out the reply and hands it to [`UntrustedTxOutService::advance`], which gives the
//! next state of the run or the response.
use vstd::prelude::*;

use crate::progress::Progress;
use crate::sequence;
use crate::span::Span;
use crate::tx_out::{
    DecodedKey, TxOutRequest, TxOutResponse, TxOutResponseView, TxOutResult,
    TxOutResultCode,
};
use crate::watcher::{Poll, PollOutcome, Wait, WatcherSettings};

verus! {

/// A question that a run has open. `K` is the type of decoded public keys, `M` that of the messages
/// which carry a key in requests and responses.
#[derive(Debug, PartialEq, Eq)]
pub enum TxOutQuery<'a, K, M> {
    /// How many blocks does the ledger hold?
    NumBlocks,
    /// How many transaction outputs does the ledger hold?
    NumTxos,
    /// Which public key does this message carry?
    Key(&'a M),
    /// What is the index of the transaction output with this public key?
    TxOutIndex(&'a K),
    /// What is the index of the block with the transaction output at this index?
    BlockIndex(u64),
    /// What is the timestamp of the block at `block_index`? With `wait`, what it says comes
    /// first; without, the watcher-behind timer is started first.
    Timestamp { block_index: u64, wait: Option<Wait> },
}

/// The reply to the question for a public key.
#[derive(Debug, PartialEq, Eq)]
pub enum KeyReply<K, M> {
    Valid(DecodedKey<K, M>),
    Malformed,
}

/// The reply to the question for the index of a transaction output.
#[derive(Debug, PartialEq, Eq)]
pub enum IndexReply<E> {
    Index(u64),
    NotFound,
    Failed(E),
}

/// The reply to a question. `K` is the type of decoded public keys, `M` that of the messages which
/// carry a key, `E` that of ledger errors.
#[derive(Debug, PartialEq, Eq)]
pub enum TxOutReply<K, M, E> {
    NumBlocks(Result<u64, E>),
    NumTxos(Result<u64, E>),
    Key(KeyReply<K, M>),
    TxOutIndex(IndexReply<E>),
    BlockIndex(Result<u64, E>),
    Timestamp(Poll),
}

impl<'a, K, M> TxOutQuery<'a, K, M> {
    /// Whether `reply` is a reply to this question.
    pub open spec fn is_answered_by<E>(self, reply: TxOutReply<K, M, E>) -> bool {
        match self {
            TxOutQuery::NumBlocks => reply is NumBlocks,
            TxOutQuery::NumTxos => reply is NumTxos,
            TxOutQuery::Key(_) => reply is Key,
            TxOutQuery::TxOutIndex(_) => reply is TxOutIndex,
            TxOutQuery::BlockIndex(_) => reply is BlockIndex,
            TxOutQuery::Timestamp { .. } => reply is Timestamp,
        }
    }
}

/// The search for the transaction output with one public key, by how far it has come. `encoded`
/// is the message that carries the key.
#[derive(Debug, PartialEq, Eq)]
pub enum TxOutLookup<K, M> {
    /// The index of the transaction output is needed.
    Index { key: K, encoded: M },
    /// The index of its block is needed.
    BlockIndex { encoded: M, tx_out_index: u64 },
    /// Only the timestamp is missing. `wait` is what the last round of polling led to.
    Timestamp {
        encoded: M,
        tx_out_index: u64,
        block_index: u64,
        wait: Option<Wait>,
    },
}

impl<K, M> TxOutLookup<K, M> {
    /// The question that the search has open.
    pub open spec fn asks(&self) -> TxOutQuery<'_, K, M> {
        match self {
            TxOutLookup::Index { key, .. } => TxOutQuery::TxOutIndex(key),
            TxOutLookup::BlockIndex { tx_out_index, .. } => TxOutQuery::BlockIndex(*tx_out_index),
            TxOutLookup::Timestamp { block_index, wait, .. } => TxOutQuery::Timestamp {
                block_index: *block_index,
                wait: *wait,
            },
        }
    }

    /// What `reply` makes of the search. That the ledger does not hold the transaction output is a
    /// result; any other ledger error ends the search without one. A reply to another question
    /// than the open one changes nothing.
    pub open spec fn after<E>(self, settings: WatcherSettings, reply: TxOutReply<K, M, E>) -> Progress<
        TxOutLookup<K, M>,
        Result<TxOutResult<M>, E>,
    > {
        match (self, reply) {
            (
                TxOutLookup::Index { encoded, .. },
                TxOutReply::TxOutIndex(IndexReply::Index(tx_out_index)),
            ) => Progress::Pending(TxOutLookup::BlockIndex { encoded, tx_out_index }),
            (
                TxOutLookup::Index { encoded, .. },
                TxOutReply::TxOutIndex(IndexReply::NotFound),
            ) => Progress::Done(Ok(TxOutResult::bare(encoded, TxOutResultCode::NotFound))),
            (
                TxOutLookup::Index { .. },
                TxOutReply::TxOutIndex(IndexReply::Failed(error)),
            ) => Progress::Done(Err(error)),
            (
                TxOutLookup::BlockIndex { encoded, tx_out_index },
                TxOutReply::BlockIndex(Ok(block_index)),
            ) => Progress::Pending(
                TxOutLookup::Timestamp { encoded, tx_out_index, block_index, wait: None },
            ),
            (TxOutLookup::BlockIndex { .. }, TxOutReply::BlockIndex(Err(error))) => Progress::Done(
                Err(error),
            ),
            (
                TxOutLookup::Timestamp { encoded, tx_out_index, block_index, .. },
                TxOutReply::Timestamp(poll),
            ) => match settings.outcome(poll) {
                PollOutcome::Settled(settled) => Progress::Done(
                    Ok(TxOutResult::found(encoded, tx_out_index, block_index, settled)),
                ),
                PollOutcome::Retry(wait) => Progress::Pending(
                    TxOutLookup::Timestamp { encoded, tx_out_index, block_index, wait: Some(wait) },
                ),
            },
            _ => Progress::Pending(self),
        }
    }

    /// The question that the search has open.
    pub fn query(&self) -> (query: TxOutQuery<'_, K, M>)
        ensures
            query == self.asks(),
    {
        match self {
            TxOutLookup::Index { key, .. } => TxOutQuery::TxOutIndex(key),
            TxOutLookup::BlockIndex { tx_out_index, .. } => TxOutQuery::BlockIndex(*tx_out_index),
            TxOutLookup::Timestamp { block_index, wait, .. } => TxOutQuery::Timestamp {
                block_index: *block_index,
                wait: *wait,
            },
        }
    }
}

/// What a run is occupied with. `requested` is the message of the request that is to carry the
/// public key.
#[derive(Debug, PartialEq, Eq)]
pub enum TxOutStage<K, M> {
    NumBlocks,
    NumTxos,
    Key { requested: M },
    Lookup { requested: M, lookup: TxOutLookup<K, M> },
}

/// The work on one request for transaction outputs.
pub struct TxOutRun<K, M> {
    stage: TxOutStage<K, M>,
    /// The public keys that come after the one being looked up, the next one last.
    remaining: Vec<M>,
    /// The response as far as it has come.
    response: TxOutResponse<M>,
}

/// The state of a run: what it is occupied with, the public keys that come after that, and the
/// response as far as it has come.
#[verifier::ext_equal]
pub struct TxOutRunView<K, M> {
    pub stage: TxOutStage<K, M>,
    pub remaining: Seq<M>,
    pub response: TxOutResponseView<M>,
}

impl<K, M> View for TxOutRun<K, M> {
    type V = TxOutRunView<K, M>;

    closed spec fn view(&self) -> TxOutRunView<K, M> {
        TxOutRunView {
            stage: self.stage,
            remaining: self.remaining@.reverse(),
            response: self.response@,
        }
    }
}

/// The result for the message `requested` whose search ended with `searched`. A search without
/// a result is reported as a database error, on the message of the request itself.
pub open spec fn reported<M, E>(
    requested: M,
    searched: Result<TxOutResult<M>, E>,
) -> TxOutResult<M> {
    match searched {
        Ok(result) => result,
        Err(_) => TxOutResult::bare(requested, TxOutResultCode::DatabaseError),
    }
}

impl<K, M> TxOutRunView<K, M> {
    /// The state in which the work on a request for `keys` begins.
    pub open spec fn start(keys: Seq<M>) -> TxOutRunView<K, M> {
        TxOutRunView {
            stage: TxOutStage::NumBlocks,
            remaining: keys,
            response: TxOutResponseView {
                num_blocks: 0,
                global_txo_count: 0,
                results: Seq::empty(),
            },
        }
    }

    /// The question that the run has open.
    pub open spec fn asks(&self) -> TxOutQuery<'_, K, M> {
        match &self.stage {
            TxOutStage::NumBlocks => TxOutQuery::NumBlocks,
            TxOutStage::NumTxos => TxOutQuery::NumTxos,
            TxOutStage::Key { requested } => TxOutQuery::Key(requested),
            TxOutStage::Lookup { lookup, .. } => lookup.asks(),
        }
    }

    /// What becomes of a run that has `response` so far and `remaining` still to look up: it turns
    /// to the first of these public keys or, if none is left, is over.
    pub open spec fn resume<E>(
        remaining: Seq<M>,
        response: TxOutResponseView<M>,
    ) -> Progress<TxOutRunView<K, M>, Result<TxOutResponseView<M>, E>> {
        if remaining.len() == 0 {
            Progress::Done(Ok(response))
        } else {
            Progress::Pending(
                TxOutRunView {
                    stage: TxOutStage::Key { requested: remaining[0] },
                    remaining: remaining.drop_first(),
                    response,
                },
            )
        }
    }

    /// What `reply` makes of the run. An error in one of the two counts ends it; everything else
    /// that goes wrong is reported in the result for the public key in question. A reply to
    /// another question than the open one changes nothing.
    pub open spec fn after<E>(self, settings: WatcherSettings, reply: TxOutReply<K, M, E>) -> Progress<
        TxOutRunView<K, M>,
        Result<TxOutResponseView<M>, E>,
    > {
        match (self.stage, reply) {
            (TxOutStage::NumBlocks, TxOutReply::NumBlocks(Err(error))) => Progress::Done(
                Err(error),
            ),
            (TxOutStage::NumBlocks, TxOutReply::NumBlocks(Ok(num_blocks))) => Progress::Pending(
                TxOutRunView {
                    stage: TxOutStage::NumTxos,
                    response: TxOutResponseView { num_blocks, ..self.response },
                    ..self
                },
            ),
            (TxOutStage::NumTxos, TxOutReply::NumTxos(Err(error))) => Progress::Done(Err(error)),
            (
                TxOutStage::NumTxos,
                TxOutReply::NumTxos(Ok(global_txo_count)),
            ) => TxOutRunView::resume(
                self.remaining,
                TxOutResponseView { global_txo_count, ..self.response },
            ),
            (
                TxOutStage::Key { requested },
                TxOutReply::Key(KeyReply::Malformed),
            ) => TxOutRunView::resume(
                self.remaining,
                self.response.with(TxOutResult::bare(requested, TxOutResultCode::MalformedRequest)),
            ),
            (
                TxOutStage::Key { requested },
                TxOutReply::Key(KeyReply::Valid(DecodedKey { key, encoded })),
            ) => Progress::Pending(
                TxOutRunView {
                    stage: TxOutStage::Lookup {
                        requested,
                        lookup: TxOutLookup::Index { key, encoded },
                    },
                    ..self
                },
            ),
            (TxOutStage::Lookup { requested, lookup }, _) => match lookup.after(settings, reply) {
                Progress::Pending(lookup) => Progress::Pending(
                    TxOutRunView { stage: TxOutStage::Lookup { requested, lookup }, ..self },
                ),
                Progress::Done(searched) => TxOutRunView::resume(
                    self.remaining,
                    self.response.with(reported(requested, searched)),
                ),
            },
            _ => Progress::Pending(self),
        }
    }
}

/// The progress of a run, with the run and the response taken by their views.
pub open spec fn progress_view<K, M, E>(
    progress: Progress<TxOutRun<K, M>, Result<TxOutResponse<M>, E>>,
) -> Progress<TxOutRunView<K, M>, Result<TxOutResponseView<M>, E>> {
    match progress {
        Progress::Pending(run) => Progress::Pending(run@),
        Progress::Done(Ok(response)) => Progress::Done(Ok(response@)),
        Progress::Done(Err(error)) => Progress::Done(Err(error)),
    }
}

impl<K, M> TxOutRun<K, M> {
    /// The question that the run has open.
    pub fn query(&self) -> (query: TxOutQuery<'_, K, M>)
        ensures
            query == self@.asks(),
    {
        match &self.stage {
            TxOutStage::NumBlocks => TxOutQuery::NumBlocks,
            TxOutStage::NumTxos => TxOutQuery::NumTxos,
            TxOutStage::Key { requested } => TxOutQuery::Key(requested),
            TxOutStage::Lookup { lookup, .. } => lookup.query(),
        }
    }

    /// Turns to the first of the `remaining` public keys (the last in the vector) or, if none is
    /// left, gives the response.
    fn resume<E>(remaining: Vec<M>, response: TxOutResponse<M>) -> (progress:
        Progress<TxOutRun<K, M>, Result<TxOutResponse<M>, E>>)
        ensures
            progress_view(progress) == TxOutRunView::<K, M>::resume::<E>(
                remaining@.reverse(),
                response@,
            ),
    {
        let mut rest = remaining;
        match rest.pop() {
            Some(requested) => {
                proof {
                    sequence::lemma_reverse_after_pop(remaining@);
                }
                Progress::Pending(
                    TxOutRun { stage: TxOutStage::Key { requested }, remaining: rest, response },
                )
            },
            None => Progress::Done(Ok(response)),
        }
    }
}

/// The service that looks transaction outputs up by their public keys.
#[derive(Clone, Copy, Debug, PartialEq, Eq)]
pub struct UntrustedTxOutService {
    pub settings: WatcherSettings,
}

impl UntrustedTxOutService {
    /// A service that polls the watcher as given.
    pub fn new(
        watcher_timeout: Span,
        polling_frequency: Span,
        error_retry_frequency: Span,
    ) -> (service: UntrustedTxOutService)
        ensures
            service.settings == (WatcherSettings {
                watcher_timeout,
                polling_frequency,
                error_retry_frequency,
            }),
    {
        UntrustedTxOutService {
            settings: WatcherSettings { watcher_timeout, polling_frequency, error_retry_frequency },
        }
    }

    /// Takes on a request of a caller who was authenticated, or refused, as `authenticated` says.
    /// A refused caller gets the reason of the refusal, and no run begins: neither the ledger nor
    /// the watcher is asked anything.
    pub fn get_tx_outs<K, M, A>(
        &self,
        authenticated: Result<(), A>,
        request: TxOutRequest<M>,
    ) -> (run: Result<TxOutRun<K, M>, A>)
        ensures
            match authenticated {
                Ok(()) => run matches Ok(run) && run@ == TxOutRunView::<K, M>::start(
                    request.tx_out_pubkeys@,
                ),
                Err(refusal) => run == Err::<TxOutRun<K, M>, A>(refusal),
            },
    {
        match authenticated {
            Ok(()) => Ok(self.get_tx_outs_impl(request)),
            Err(refusal) => Err(refusal),
        }
    }

    /// Begins the work on a request.
    fn get_tx_outs_impl<K, M>(&self, request: TxOutRequest<M>) -> (run: TxOutRun<K, M>)
        ensures
            run@ == TxOutRunView::<K, M>::start(request.tx_out_pubkeys@),
    {
        proof {
            sequence::lemma_reverse_twice(request.tx_out_pubkeys@);
        }
        TxOutRun {
            stage: TxOutStage::NumBlocks,
            remaining: sequence::reversed(request.tx_out_pubkeys),
            response: TxOutResponse { num_blocks: 0, global_txo_count: 0, results: Vec::new() },
        }
    }

    /// Begins the search for the transaction output with the public key `tx_out_pubkey`.
    pub fn get_tx_out<K, M>(&self, tx_out_pubkey: DecodedKey<K, M>) -> (lookup: TxOutLookup<K, M>)
        ensures
            lookup == (TxOutLookup::Index {
                key: tx_out_pubkey.key,
                encoded: tx_out_pubkey.encoded,
            }),
            lookup.asks() == TxOutQuery::<K, M>::TxOutIndex(&tx_out_pubkey.key),
    {
        TxOutLookup::Index { key: tx_out_pubkey.key, encoded: tx_out_pubkey.encoded }
    }

    /// Works a reply into the search for a transaction output.
    pub fn advance_tx_out<K, M, E>(&self, lookup: TxOutLookup<K, M>, reply: TxOutReply<K, M, E>) -> (progress:
        Progress<TxOutLookup<K, M>, Result<TxOutResult<M>, E>>)
        ensures
            progress == lookup.after(self.settings, reply),
    {
        match (lookup, reply) {
            (
                TxOutLookup::Index { key: _, encoded },
                TxOutReply::TxOutIndex(index),
            ) => match index {
                IndexReply::Index(tx_out_index) => Progress::Pending(
                    TxOutLookup::BlockIndex { encoded, tx_out_index },
                ),
                IndexReply::NotFound => Progress::Done(
                    Ok(TxOutResult::new(encoded, TxOutResultCode::NotFound)),
                ),
                IndexReply::Failed(error) => Progress::Done(Err(error)),
            },
            (
                TxOutLookup::BlockIndex { encoded, tx_out_index },
                TxOutReply::BlockIndex(index),
            ) => match index {
                Ok(block_index) => Progress::Pending(
                    TxOutLookup::Timestamp { encoded, tx_out_index, block_index, wait: None },
                ),
                Err(error) => Progress::Done(Err(error)),
            },
            (
                TxOutLookup::Timestamp { encoded, tx_out_index, block_index, wait: _ },
                TxOutReply::Timestamp(poll),
            ) => match self.settings.judge(poll) {
                PollOutcome::Settled(settled) => {
                    let mut result = TxOutResult::new(encoded, TxOutResultCode::Found);
                    result.tx_out_global_index = tx_out_index;
                    result.block_index = block_index;
                    result.timestamp = settled.timestamp;
                    result.timestamp_result_code = settled.timestamp_result_code;
                    Progress::Done(Ok(result))
                },
                PollOutcome::Retry(wait) => Progress::Pending(
                    TxOutLookup::Timestamp { encoded, tx_out_index, block_index, wait: Some(wait) },
                ),
            },
            (lookup, _) => Progress::Pending(lookup),
        }
    }

    /// Works a reply into a run.
    pub fn advance<K, M, E>(&self, run: TxOutRun<K, M>, reply: TxOutReply<K, M, E>) -> (progress: Progress<
        TxOutRun<K, M>,
        Result<TxOutResponse<M>, E>,
    >)
        ensures
            progress_view(progress) == run@.after(self.settings, reply),
            match progress {
                Progress::Pending(next) => run@.after(self.settings, reply) == Progress::<
                    TxOutRunView<K, M>,
                    Result<TxOutResponseView<M>, E>,
                >::Pending(next@),
                Progress::Done(Ok(response)) => run@.after(self.settings, reply) == Progress::<
                    TxOutRunView<K, M>,
                    Result<TxOutResponseView<M>, E>,
                >::Done(
                    Ok(
                        TxOutResponseView {
                            num_blocks: response.num_blocks,
                            global_txo_count: response.global_txo_count,
                            results: response.results@,
                        },
                    ),
                ),
                Progress::Done(Err(error)) => run@.after(self.settings, reply) == Progress::<
                    TxOutRunView<K, M>,
                    Result<TxOutResponseView<M>, E>,
                >::Done(Err(error)),
            },
    {
        let TxOutRun { stage, remaining, response } = run;
        match (stage, reply) {
            (TxOutStage::NumBlocks, TxOutReply::NumBlocks(counted)) => match counted {
                Ok(num_blocks) => Progress::Pending(
                    TxOutRun {
                        stage: TxOutStage::NumTxos,
                        remaining,
                        response: TxOutResponse { num_blocks, ..response },
                    },
                ),
                Err(error) => Progress::Done(Err(error)),
            },
            (TxOutStage::NumTxos, TxOutReply::NumTxos(counted)) => match counted {
                Ok(global_txo_count) => TxOutRun::resume(
                    remaining,
                    TxOutResponse { global_txo_count, ..response },
                ),
                Err(error) => Progress::Done(Err(error)),
            },
            (TxOutStage::Key { requested }, TxOutReply::Key(decoded)) => match decoded {
                KeyReply::Valid(decoded) => Progress::Pending(
                    TxOutRun {
                        stage: TxOutStage::Lookup { requested, lookup: self.get_tx_out(decoded) },
                        remaining,
                        response,
                    },
                ),
                KeyReply::Malformed => {
                    let mut response = response;
                    response.results.push(
                        TxOutResult::new(requested, TxOutResultCode::MalformedRequest),
                    );
                    TxOutRun::resume(remaining, response)
                },
            },
            (TxOutStage::Lookup { requested, lookup }, reply) => match self.advance_tx_out(
                lookup,
                reply,
            ) {
                Progress::Pending(lookup) => Progress::Pending(
                    TxOutRun {
                        stage: TxOutStage::Lookup { requested, lookup },
                        remaining,
                        response,
                    },
                ),
                Progress::Done(searched) => {
                    let result = match searched {
                        Ok(result) => result,
                        Err(_) => TxOutResult::new(requested, TxOutResultCode::DatabaseError),
                    };
                    let mut response = response;
                    response.results.push(result);
                    TxOutRun::resume(remaining, response)
                },
            },
            (stage, _) => Progress::Pending(TxOutRun { stage, remaining, response }),
        }
    }
}

} // verus!
