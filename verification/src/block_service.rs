//! The service that hands out blocks.
//!
//! The ledger, the watcher, the clock and the network are the caller's. A request becomes a
//! [`BlockRun`], which always has one question open ([`BlockRun::query`]); the caller finds out
//! the reply and hands it to [`BlockService::advance`], which gives the next state of the run or
//! the response.
use vstd::prelude::*;

use crate::block::{Block, BlockRequest, BlockResponse, BlockResponseView, IndexQueue};
use crate::progress::Progress;
use crate::span::Span;
use crate::watcher::{Poll, PollOutcome, Wait, WatcherSettings};

verus! {

/// A question that a run has open.
#[derive(Clone, Copy, Debug, PartialEq, Eq)]
pub enum BlockQuery {
    /// How many blocks does the ledger hold?
    NumBlocks,
    /// How many transaction outputs does the ledger hold?
    NumTxos,
    /// What are the contents of the block at this index?
    BlockContents(u64),
    /// What is the block at this index?
    Block(u64),
    /// What is the timestamp of the block at `block_index`? With `wait`, what it says comes
    /// first; without, the watcher-behind timer is started first.
    Timestamp { block_index: u64, wait: Option<Wait> },
}

/// The reply to a question. `T` is the type of transaction outputs, `E` that of ledger errors.
#[derive(Debug, PartialEq, Eq)]
pub enum BlockReply<T, E> {
    NumBlocks(Result<u64, E>),
    NumTxos(Result<u64, E>),
    /// The outputs among the block's contents.
    BlockContents(Result<Vec<T>, E>),
    /// The number of transaction outputs in the ledger up to and with the block.
    Block(Result<u64, E>),
    Timestamp(Poll),
}

impl BlockQuery {
    /// Whether `reply` is a reply to this question.
    pub open spec fn is_answered_by<T, E>(self, reply: BlockReply<T, E>) -> bool {
        match self {
            BlockQuery::NumBlocks => reply is NumBlocks,
            BlockQuery::NumTxos => reply is NumTxos,
            BlockQuery::BlockContents(_) => reply is BlockContents,
            BlockQuery::Block(_) => reply is Block,
            BlockQuery::Timestamp { .. } => reply is Timestamp,
        }
    }
}

/// The search for one block, by how far it has come.
#[derive(Debug, PartialEq, Eq)]
pub enum BlockLookup<T> {
    /// The contents are needed.
    Contents { index: u64 },
    /// The contents are there, the block itself is needed.
    Header { index: u64, outputs: Vec<T> },
    /// Only the timestamp is missing. `wait` is what the last round of polling led to.
    Timestamp { index: u64, outputs: Vec<T>, global_txo_count: u64, wait: Option<Wait> },
}

impl<T> BlockLookup<T> {
    /// The question that the search has open.
    pub open spec fn asks(self) -> BlockQuery {
        match self {
            BlockLookup::Contents { index } => BlockQuery::BlockContents(index),
            BlockLookup::Header { index, .. } => BlockQuery::Block(index),
            BlockLookup::Timestamp { index, wait, .. } => BlockQuery::Timestamp {
                block_index: index,
                wait,
            },
        }
    }

    /// What `reply` makes of the search. A ledger error ends it; a reply to another question than
    /// the open one changes nothing.
    pub open spec fn after<E>(self, settings: WatcherSettings, reply: BlockReply<T, E>) -> Progress<
        BlockLookup<T>,
        Result<Block<T>, E>,
    > {
        match (self, reply) {
            (BlockLookup::Contents { .. }, BlockReply::BlockContents(Err(error))) => Progress::Done(
                Err(error),
            ),
            (
                BlockLookup::Contents { index },
                BlockReply::BlockContents(Ok(outputs)),
            ) => Progress::Pending(BlockLookup::Header { index, outputs }),
            (BlockLookup::Header { .. }, BlockReply::Block(Err(error))) => Progress::Done(
                Err(error),
            ),
            (
                BlockLookup::Header { index, outputs },
                BlockReply::Block(Ok(global_txo_count)),
            ) => Progress::Pending(
                BlockLookup::Timestamp { index, outputs, global_txo_count, wait: None },
            ),
            (
                BlockLookup::Timestamp { index, outputs, global_txo_count, .. },
                BlockReply::Timestamp(poll),
            ) => match settings.outcome(poll) {
                PollOutcome::Settled(settled) => Progress::Done(
                    Ok(
                        Block {
                            index,
                            outputs,
                            global_txo_count,
                            timestamp: settled.timestamp,
                            timestamp_result_code: settled.timestamp_result_code,
                        },
                    ),
                ),
                PollOutcome::Retry(wait) => Progress::Pending(
                    BlockLookup::Timestamp { index, outputs, global_txo_count, wait: Some(wait) },
                ),
            },
            _ => Progress::Pending(self),
        }
    }

    /// The question that the search has open.
    pub fn query(&self) -> (query: BlockQuery)
        ensures
            query == self.asks(),
    {
        match self {
            BlockLookup::Contents { index } => BlockQuery::BlockContents(*index),
            BlockLookup::Header { index, .. } => BlockQuery::Block(*index),
            BlockLookup::Timestamp { index, wait, .. } => BlockQuery::Timestamp {
                block_index: *index,
                wait: *wait,
            },
        }
    }
}

/// What a run is occupied with.
#[derive(Debug, PartialEq, Eq)]
pub enum BlockStage<T> {
    NumBlocks,
    NumTxos,
    Lookup(BlockLookup<T>),
}

/// The work on one request for blocks.
pub struct BlockRun<T> {
    stage: BlockStage<T>,
    /// The indices that come after the one being looked up.
    remaining: IndexQueue,
    /// The response as far as it has come.
    response: BlockResponse<T>,
}

/// The state of a run: what it is occupied with, the indices that come after that, and the
/// response as far as it has come.
#[verifier::ext_equal]
pub struct BlockRunView<T> {
    pub stage: BlockStage<T>,
    pub remaining: Seq<u64>,
    pub response: BlockResponseView<T>,
}

impl<T> View for BlockRun<T> {
    type V = BlockRunView<T>;

    closed spec fn view(&self) -> BlockRunView<T> {
        BlockRunView {
            stage: self.stage,
            remaining: self.remaining@,
            response: self.response@,
        }
    }
}

impl<T> BlockRunView<T> {
    /// The state in which the work on a request for `indices` begins.
    pub open spec fn start(indices: Seq<u64>) -> BlockRunView<T> {
        BlockRunView {
            stage: BlockStage::NumBlocks,
            remaining: indices,
            response: BlockResponseView {
                num_blocks: 0,
                global_txo_count: 0,
                blocks: Seq::empty(),
            },
        }
    }

    /// The question that the run has open.
    pub open spec fn asks(self) -> BlockQuery {
        match self.stage {
            BlockStage::NumBlocks => BlockQuery::NumBlocks,
            BlockStage::NumTxos => BlockQuery::NumTxos,
            BlockStage::Lookup(lookup) => lookup.asks(),
        }
    }

    /// What becomes of a run that has `response` so far and `remaining` still to look up: it turns
    /// to the first of these indices or, if none is left, is over.
    pub open spec fn resume<E>(remaining: Seq<u64>, response: BlockResponseView<T>) -> Progress<
        BlockRunView<T>,
        Result<BlockResponseView<T>, E>,
    > {
        if remaining.len() == 0 {
            Progress::Done(Ok(response))
        } else {
            Progress::Pending(
                BlockRunView {
                    stage: BlockStage::Lookup(BlockLookup::Contents { index: remaining[0] }),
                    remaining: remaining.drop_first(),
                    response,
                },
            )
        }
    }

    /// What `reply` makes of the run. An error in one of the two counts ends it; a block that
    /// cannot be had is left out of the response. A reply to another question than the open one
    /// changes nothing.
    pub open spec fn after<E>(self, settings: WatcherSettings, reply: BlockReply<T, E>) -> Progress<
        BlockRunView<T>,
        Result<BlockResponseView<T>, E>,
    > {
        match (self.stage, reply) {
            (BlockStage::NumBlocks, BlockReply::NumBlocks(Err(error))) => Progress::Done(
                Err(error),
            ),
            (BlockStage::NumBlocks, BlockReply::NumBlocks(Ok(num_blocks))) => Progress::Pending(
                BlockRunView {
                    stage: BlockStage::NumTxos,
                    response: BlockResponseView { num_blocks, ..self.response },
                    ..self
                },
            ),
            (BlockStage::NumTxos, BlockReply::NumTxos(Err(error))) => Progress::Done(Err(error)),
            (
                BlockStage::NumTxos,
                BlockReply::NumTxos(Ok(global_txo_count)),
            ) => BlockRunView::resume(
                self.remaining,
                BlockResponseView { global_txo_count, ..self.response },
            ),
            (BlockStage::Lookup(lookup), _) => match lookup.after(settings, reply) {
                Progress::Pending(lookup) => Progress::Pending(
                    BlockRunView { stage: BlockStage::Lookup(lookup), ..self },
                ),
                Progress::Done(found) => BlockRunView::resume(
                    self.remaining,
                    self.response.with(found),
                ),
            },
            _ => Progress::Pending(self),
        }
    }
}

impl<T> BlockRun<T> {
    /// The question that the run has open.
    pub fn query(&self) -> (query: BlockQuery)
        ensures
            query == self@.asks(),
    {
        match &self.stage {
            BlockStage::NumBlocks => BlockQuery::NumBlocks,
            BlockStage::NumTxos => BlockQuery::NumTxos,
            BlockStage::Lookup(lookup) => lookup.query(),
        }
    }
}

/// The progress of a run, with the run and the response taken by their views.
pub open spec fn progress_view<T, E>(
    progress: Progress<BlockRun<T>, Result<BlockResponse<T>, E>>,
) -> Progress<BlockRunView<T>, Result<BlockResponseView<T>, E>> {
    match progress {
        Progress::Pending(run) => Progress::Pending(run@),
        Progress::Done(Ok(response)) => Progress::Done(Ok(response@)),
        Progress::Done(Err(error)) => Progress::Done(Err(error)),
    }
}

/// The service that hands out blocks.
#[derive(Clone, Copy, Debug, PartialEq, Eq)]
pub struct BlockService {
    pub settings: WatcherSettings,
}

impl BlockService {
    /// A service that polls the watcher as given.
    pub fn new(
        watcher_timeout: Span,
        polling_frequency: Span,
        error_retry_frequency: Span,
    ) -> (service: BlockService)
        ensures
            service.settings == (WatcherSettings {
                watcher_timeout,
                polling_frequency,
                error_retry_frequency,
            }),
    {
        BlockService {
            settings: WatcherSettings { watcher_timeout, polling_frequency, error_retry_frequency },
        }
    }

    /// Takes on a request of a caller who was authenticated, or refused, as `authenticated` says.
    /// A refused caller gets the reason of the refusal, and no run begins: neither the ledger nor
    /// the watcher is asked anything.
    pub fn get_blocks<T, A>(
        &self,
        authenticated: Result<(), A>,
        request: BlockRequest,
    ) -> (run: Result<BlockRun<T>, A>)
        ensures
            match authenticated {
                Ok(()) => run matches Ok(run) && run@ == BlockRunView::<T>::start(
                    request.indices(),
                ),
                Err(refusal) => run == Err::<BlockRun<T>, A>(refusal),
            },
    {
        match authenticated {
            Ok(()) => Ok(self.get_blocks_impl(request)),
            Err(refusal) => Err(refusal),
        }
    }

    /// Begins the work on a request.
    fn get_blocks_impl<T>(&self, request: BlockRequest) -> (run: BlockRun<T>)
        ensures
            run@ == BlockRunView::<T>::start(request.indices()),
    {
        BlockRun {
            stage: BlockStage::NumBlocks,
            remaining: IndexQueue::new(request),
            response: BlockResponse { num_blocks: 0, global_txo_count: 0, blocks: Vec::new() },
        }
    }

    /// Begins the search for the block at `block_index`.
    pub fn get_block<T>(&self, block_index: u64) -> (lookup: BlockLookup<T>)
        ensures
            lookup == (BlockLookup::<T>::Contents { index: block_index }),
            lookup.asks() == BlockQuery::BlockContents(block_index),
    {
        BlockLookup::Contents { index: block_index }
    }

    /// Turns a run to the first of the `remaining` indices or, if none is left, gives its response.
    fn resume<T, E>(&self, remaining: IndexQueue, response: BlockResponse<T>) -> (progress: Progress<
        BlockRun<T>,
        Result<BlockResponse<T>, E>,
    >)
        ensures
            progress_view(progress) == BlockRunView::resume::<E>(remaining@, response@),
    {
        let mut rest = remaining;
        match rest.pop() {
            Some(index) => Progress::Pending(
                BlockRun {
                    stage: BlockStage::Lookup(self.get_block(index)),
                    remaining: rest,
                    response,
                },
            ),
            None => Progress::Done(Ok(response)),
        }
    }

    /// Works a reply into the search for a block.
    pub fn advance_block<T, E>(&self, lookup: BlockLookup<T>, reply: BlockReply<T, E>) -> (progress:
        Progress<BlockLookup<T>, Result<Block<T>, E>>)
        ensures
            progress == lookup.after(self.settings, reply),
    {
        match (lookup, reply) {
            (BlockLookup::Contents { index }, BlockReply::BlockContents(contents)) => match contents {
                Ok(outputs) => Progress::Pending(BlockLookup::Header { index, outputs }),
                Err(error) => Progress::Done(Err(error)),
            },
            (BlockLookup::Header { index, outputs }, BlockReply::Block(block)) => match block {
                Ok(global_txo_count) => Progress::Pending(
                    BlockLookup::Timestamp { index, outputs, global_txo_count, wait: None },
                ),
                Err(error) => Progress::Done(Err(error)),
            },
            (
                BlockLookup::Timestamp { index, outputs, global_txo_count, wait: _ },
                BlockReply::Timestamp(poll),
            ) => match self.settings.judge(poll) {
                PollOutcome::Settled(settled) => Progress::Done(
                    Ok(
                        Block {
                            index,
                            outputs,
                            global_txo_count,
                            timestamp: settled.timestamp,
                            timestamp_result_code: settled.timestamp_result_code,
                        },
                    ),
                ),
                PollOutcome::Retry(wait) => Progress::Pending(
                    BlockLookup::Timestamp { index, outputs, global_txo_count, wait: Some(wait) },
                ),
            },
            (lookup, _) => Progress::Pending(lookup),
        }
    }

    /// Works a reply into a run.
    pub fn advance<T, E>(&self, run: BlockRun<T>, reply: BlockReply<T, E>) -> (progress: Progress<
        BlockRun<T>,
        Result<BlockResponse<T>, E>,
    >)
        ensures
            progress_view(progress) == run@.after(self.settings, reply),
            match progress {
                Progress::Pending(next) => run@.after(self.settings, reply) == Progress::<
                    BlockRunView<T>,
                    Result<BlockResponseView<T>, E>,
                >::Pending(next@),
                Progress::Done(Ok(response)) => run@.after(self.settings, reply) == Progress::<
                    BlockRunView<T>,
                    Result<BlockResponseView<T>, E>,
                >::Done(
                    Ok(
                        BlockResponseView {
                            num_blocks: response.num_blocks,
                            global_txo_count: response.global_txo_count,
                            blocks: response.blocks@,
                        },
                    ),
                ),
                Progress::Done(Err(error)) => run@.after(self.settings, reply) == Progress::<
                    BlockRunView<T>,
                    Result<BlockResponseView<T>, E>,
                >::Done(Err(error)),
            },
    {
        let BlockRun { stage, remaining, response } = run;
        match (stage, reply) {
            (BlockStage::NumBlocks, BlockReply::NumBlocks(counted)) => match counted {
                Ok(num_blocks) => Progress::Pending(
                    BlockRun {
                        stage: BlockStage::NumTxos,
                        remaining,
                        response: BlockResponse { num_blocks, ..response },
                    },
                ),
                Err(error) => Progress::Done(Err(error)),
            },
            (BlockStage::NumTxos, BlockReply::NumTxos(counted)) => match counted {
                Ok(global_txo_count) => self.resume(
                    remaining,
                    BlockResponse { global_txo_count, ..response },
                ),
                Err(error) => Progress::Done(Err(error)),
            },
            (BlockStage::Lookup(lookup), reply) => match self.advance_block(lookup, reply) {
                Progress::Pending(lookup) => Progress::Pending(
                    BlockRun { stage: BlockStage::Lookup(lookup), remaining, response },
                ),
                Progress::Done(found) => {
                    let mut response = response;
                    if let Ok(block) = found {
                        response.blocks.push(block);
                    }
                    self.resume(remaining, response)
                },
            },
            (stage, _) => Progress::Pending(BlockRun { stage, remaining, response }),
        }
    }
}

} // verus!
