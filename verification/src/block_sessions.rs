//! What comes of a request for blocks as a whole.
//!
//! The service works on a request reply by reply. Here the replies of one request, from the first
//! to the last, are taken together: which conversations there are, and what each ends with.
use vstd::prelude::*;

use crate::block::{Block, BlockRange, BlockRequest, BlockResponseView};
use crate::block_service::{BlockLookup, BlockQuery, BlockReply, BlockRunView, BlockStage};
use crate::progress::Progress;
use crate::watcher::{Poll, WatcherSettings};

verus! {

impl<T> BlockLookup<T> {
    /// Whether the search, from here on, gets exactly `replies` and ends with `result`: each reply
    /// is to the question that is open at that point, and the last one ends the search.
    pub open spec fn concludes<E>(
        self,
        settings: WatcherSettings,
        replies: Seq<BlockReply<T, E>>,
        result: Result<Block<T>, E>,
    ) -> bool
        decreases replies.len(),
    {
        &&& replies.len() > 0
        &&& self.asks().is_answered_by(replies[0])
        &&& match self.after(settings, replies[0]) {
            Progress::Pending(next) => next.concludes(settings, replies.drop_first(), result),
            Progress::Done(found) => replies.len() == 1 && found == result,
        }
    }
}

impl<T> BlockRunView<T> {
    /// Whether the run, from here on, gets exactly `replies` and ends with `result`: each reply is
    /// to the question that is open at that point, and the last one ends the run.
    pub open spec fn concludes<E>(
        self,
        settings: WatcherSettings,
        replies: Seq<BlockReply<T, E>>,
        result: Result<BlockResponseView<T>, E>,
    ) -> bool
        decreases replies.len(),
    {
        &&& replies.len() > 0
        &&& self.asks().is_answered_by(replies[0])
        &&& match self.after(settings, replies[0]) {
            Progress::Pending(next) => next.concludes(settings, replies.drop_first(), result),
            Progress::Done(answer) => replies.len() == 1 && answer == result,
        }
    }
}

/// Whether a run that has come as far as `progress` gets exactly `replies` from there on and ends
/// with `result`.
pub open spec fn leads_to<T, E>(
    progress: Progress<BlockRunView<T>, Result<BlockResponseView<T>, E>>,
    settings: WatcherSettings,
    replies: Seq<BlockReply<T, E>>,
    result: Result<BlockResponseView<T>, E>,
) -> bool {
    match progress {
        Progress::Pending(run) => run.concludes(settings, replies, result),
        Progress::Done(answer) => replies.len() == 0 && answer == result,
    }
}

/// What the ledger and the watcher have to say about one block that is looked up.
pub enum BlockOutcome<T, E> {
    /// The ledger does not give the contents.
    NoContents(E),
    /// The ledger gives the contents, but not the block.
    NoBlock { outputs: Vec<T>, error: E },
    /// The ledger gives both, and the timestamp is settled in as many rounds as there are `polls`.
    Found { outputs: Vec<T>, global_txo_count: u64, polls: Seq<Poll> },
}

/// The replies that a search for a timestamp gets.
pub open spec fn timestamp_replies<T, E>(polls: Seq<Poll>) -> Seq<BlockReply<T, E>> {
    polls.map_values(|poll: Poll| BlockReply::<T, E>::Timestamp(poll))
}

/// The block at `index` with the timestamp that `polls` settle.
pub open spec fn stamped_block<T>(
    index: u64,
    outputs: Vec<T>,
    global_txo_count: u64,
    polls: Seq<Poll>,
) -> Block<T> {
    let settled = crate::watcher::settled_timestamp(polls);
    Block {
        index,
        outputs,
        global_txo_count,
        timestamp: settled.timestamp,
        timestamp_result_code: settled.timestamp_result_code,
    }
}

impl<T, E> BlockOutcome<T, E> {
    /// Whether the polling, if it comes to that, ends when the timestamp is settled.
    pub open spec fn is_valid(self) -> bool {
        self matches BlockOutcome::Found { polls, .. } ==> crate::watcher::is_settled_by(polls)
    }

    /// The replies that the search gets.
    pub open spec fn replies(self) -> Seq<BlockReply<T, E>> {
        match self {
            BlockOutcome::NoContents(error) => seq![BlockReply::BlockContents(Err(error))],
            BlockOutcome::NoBlock { outputs, error } => seq![
                BlockReply::BlockContents(Ok(outputs)),
                BlockReply::Block(Err(error)),
            ],
            BlockOutcome::Found { outputs, global_txo_count, polls } => seq![
                BlockReply::BlockContents(Ok(outputs)),
                BlockReply::Block(Ok(global_txo_count)),
            ] + timestamp_replies(polls),
        }
    }

    /// What the search for the block at `index` ends with.
    pub open spec fn result(self, index: u64) -> Result<Block<T>, E> {
        match self {
            BlockOutcome::NoContents(error) => Err(error),
            BlockOutcome::NoBlock { error, .. } => Err(error),
            BlockOutcome::Found { outputs, global_txo_count, polls } => Ok(
                stamped_block(index, outputs, global_txo_count, polls),
            ),
        }
    }
}

/// A lookup that only misses its timestamp ends once the polling does.
proof fn lemma_polling_concludes<T, E>(
    settings: WatcherSettings,
    lookup: BlockLookup<T>,
    polls: Seq<Poll>,
)
    requires
        lookup is Timestamp,
        crate::watcher::is_settled_by(polls),
    ensures
        lookup.concludes(
            settings,
            timestamp_replies::<T, E>(polls),
            Ok(
                stamped_block(
                    lookup->Timestamp_index,
                    lookup->Timestamp_outputs,
                    lookup->Timestamp_global_txo_count,
                    polls,
                ),
            ),
        ),
    decreases polls.len(),
{
    let replies = timestamp_replies::<T, E>(polls);
    assert(replies[0] == BlockReply::<T, E>::Timestamp(polls[0]));
    if polls.len() > 1 {
        assert(polls[0].reply.settles() is None);
        let rest = polls.drop_first();
        assert(rest.last() == polls.last());
        assert forall|i: int| 0 <= i < rest.len() - 1 implies (
        #[trigger] rest[i]).reply.settles() is None by {
            assert(rest[i] == polls[i + 1]);
        }
        assert(replies.drop_first() =~= timestamp_replies::<T, E>(rest));
        lemma_polling_concludes::<T, E>(
            settings,
            lookup.after(settings, replies[0])->Pending_0,
            rest,
        );
    }
}

/// The search for a block gets the replies of the outcome and ends with its result, whatever the
/// ledger and the watcher have to say.
pub proof fn law_lookup_concludes<T, E>(
    settings: WatcherSettings,
    index: u64,
    outcome: BlockOutcome<T, E>,
)
    requires
        outcome.is_valid(),
    ensures
        (BlockLookup::<T>::Contents { index }).concludes(
            settings,
            outcome.replies(),
            outcome.result(index),
        ),
{
    let replies = outcome.replies();
    let result = outcome.result(index);
    match outcome {
        BlockOutcome::NoContents(_) => {},
        BlockOutcome::NoBlock { outputs, .. } => {
            let next = BlockLookup::Header { index, outputs };
            let rest = replies.drop_first();
            assert(next.concludes(settings, rest, result));
        },
        BlockOutcome::Found { outputs, global_txo_count, polls } => {
            let next = BlockLookup::Header { index, outputs };
            let last = BlockLookup::Timestamp { index, outputs, global_txo_count, wait: None };
            let rest = replies.drop_first();
            assert(rest.drop_first() =~= timestamp_replies::<T, E>(polls));
            lemma_polling_concludes::<T, E>(settings, last, polls);
            assert(next.concludes(settings, rest, result));
        },
    }
}

/// The replies that a lookup which only misses its timestamp gets until it ends are rounds of
/// polling, of which the last settles the timestamp.
proof fn lemma_polling_conversation<T, E>(
    settings: WatcherSettings,
    lookup: BlockLookup<T>,
    replies: Seq<BlockReply<T, E>>,
    result: Result<Block<T>, E>,
) -> (polls: Seq<Poll>)
    requires
        lookup is Timestamp,
        lookup.concludes(settings, replies, result),
    ensures
        crate::watcher::is_settled_by(polls),
        replies == timestamp_replies::<T, E>(polls),
        result == Ok::<Block<T>, E>(
            stamped_block(
                lookup->Timestamp_index,
                lookup->Timestamp_outputs,
                lookup->Timestamp_global_txo_count,
                polls,
            ),
        ),
    decreases replies.len(),
{
    let poll = replies[0]->Timestamp_0;
    match lookup.after(settings, replies[0]) {
        Progress::Pending(next) => {
            let rest = lemma_polling_conversation(settings, next, replies.drop_first(), result);
            let polls = seq![poll] + rest;
            assert(polls.last() == rest.last());
            assert forall|i: int| 0 <= i < polls.len() - 1 implies (
            #[trigger] polls[i]).reply.settles() is None by {
                if i > 0 {
                    assert(polls[i] == rest[i - 1]);
                }
            }
            assert(replies =~= timestamp_replies::<T, E>(polls)) by {
                assert forall|i: int| 0 <= i < replies.len() implies replies[i]
                    == timestamp_replies::<T, E>(polls)[i] by {
                    if i > 0 {
                        assert(replies[i] == replies.drop_first()[i - 1]);
                    }
                }
            }
            polls
        },
        Progress::Done(_) => {
            let polls = seq![poll];
            assert(replies =~= timestamp_replies::<T, E>(polls));
            polls
        },
    }
}

/// The outcome behind a search that ended.
proof fn lemma_lookup_conversation<T, E>(
    settings: WatcherSettings,
    index: u64,
    replies: Seq<BlockReply<T, E>>,
    result: Result<Block<T>, E>,
) -> (outcome: BlockOutcome<T, E>)
    requires
        (BlockLookup::<T>::Contents { index }).concludes(settings, replies, result),
    ensures
        outcome.is_valid(),
        replies == outcome.replies(),
        result == outcome.result(index),
{
    match replies[0]->BlockContents_0 {
        Err(error) => {
            let outcome = BlockOutcome::<T, E>::NoContents(error);
            assert(replies =~= outcome.replies());
            outcome
        },
        Ok(outputs) => {
            let header = BlockLookup::Header { index, outputs };
            let rest = replies.drop_first();
            assert(header.concludes(settings, rest, result));
            match rest[0]->Block_0 {
                Err(error) => {
                    let outcome = BlockOutcome::NoBlock { outputs, error };
                    assert(replies =~= outcome.replies());
                    outcome
                },
                Ok(global_txo_count) => {
                    let polled = rest.drop_first();
                    let last = BlockLookup::Timestamp {
                        index,
                        outputs,
                        global_txo_count,
                        wait: None,
                    };
                    let polls = lemma_polling_conversation(settings, last, polled, result);
                    let outcome = BlockOutcome::Found { outputs, global_txo_count, polls };
                    assert(replies =~= outcome.replies()) by {
                        assert(replies[1] == rest[0]);
                        assert forall|i: int| 2 <= i < replies.len() implies replies[i]
                            == outcome.replies()[i] by {
                            assert(replies[i] == polled[i - 2]);
                        }
                    }
                    outcome
                },
            }
        },
    }
}

/// There are no other searches: every search for a block that ends is one of an outcome, with its
/// replies and its result.
pub proof fn law_lookup_conversations<T, E>(
    settings: WatcherSettings,
    index: u64,
    replies: Seq<BlockReply<T, E>>,
    result: Result<Block<T>, E>,
)
    requires
        (BlockLookup::<T>::Contents { index }).concludes(settings, replies, result),
    ensures
        exists|outcome: BlockOutcome<T, E>|
            #![trigger outcome.is_valid()]
            outcome.is_valid() && replies == outcome.replies() && result == outcome.result(index),
{
    let outcome = lemma_lookup_conversation(settings, index, replies, result);
    assert(outcome.is_valid());
}

/// What the ledger and the watcher have to say about one request for blocks.
pub enum BlockSession<T, E> {
    /// The ledger does not give its number of blocks.
    NoBlockCount(E),
    /// The ledger gives its number of blocks, but not that of transaction outputs.
    NoTxoCount { num_blocks: u64, error: E },
    /// The ledger gives both; `outcomes` has an outcome for each requested index.
    Answered { num_blocks: u64, global_txo_count: u64, outcomes: Seq<BlockOutcome<T, E>> },
}

/// The replies that the searches for several blocks get, one search after the other.
pub open spec fn all_replies<T, E>(outcomes: Seq<BlockOutcome<T, E>>) -> Seq<BlockReply<T, E>>
    decreases outcomes.len(),
{
    if outcomes.len() == 0 {
        Seq::empty()
    } else {
        outcomes[0].replies() + all_replies(outcomes.drop_first())
    }
}

/// The blocks that the searches at `indices` find, in the order of the searches. A search that
/// fails contributes nothing.
pub open spec fn found_blocks<T, E>(
    indices: Seq<u64>,
    outcomes: Seq<BlockOutcome<T, E>>,
) -> Seq<Block<T>>
    decreases outcomes.len(),
{
    if outcomes.len() == 0 {
        Seq::empty()
    } else {
        let later = found_blocks(indices.drop_first(), outcomes.drop_first());
        match outcomes[0].result(indices[0]) {
            Ok(block) => seq![block] + later,
            Err(_) => later,
        }
    }
}

/// Whether all `outcomes` are valid.
pub open spec fn all_valid<T, E>(outcomes: Seq<BlockOutcome<T, E>>) -> bool {
    forall|i: int| 0 <= i < outcomes.len() ==> (#[trigger] outcomes[i]).is_valid()
}

impl<T, E> BlockSession<T, E> {
    /// Whether the session is one of a request for `indices`.
    pub open spec fn is_valid(self, indices: Seq<u64>) -> bool {
        self matches BlockSession::Answered { outcomes, .. } ==> outcomes.len() == indices.len()
            && all_valid(outcomes)
    }

    /// The replies that the run gets.
    pub open spec fn replies(self) -> Seq<BlockReply<T, E>> {
        match self {
            BlockSession::NoBlockCount(error) => seq![BlockReply::NumBlocks(Err(error))],
            BlockSession::NoTxoCount { num_blocks, error } => seq![
                BlockReply::NumBlocks(Ok(num_blocks)),
                BlockReply::NumTxos(Err(error)),
            ],
            BlockSession::Answered { num_blocks, global_txo_count, outcomes } => seq![
                BlockReply::NumBlocks(Ok(num_blocks)),
                BlockReply::NumTxos(Ok(global_txo_count)),
            ] + all_replies(outcomes),
        }
    }

    /// What the run for `indices` ends with.
    pub open spec fn result(self, indices: Seq<u64>) -> Result<BlockResponseView<T>, E> {
        match self {
            BlockSession::NoBlockCount(error) => Err(error),
            BlockSession::NoTxoCount { error, .. } => Err(error),
            BlockSession::Answered { num_blocks, global_txo_count, outcomes } => Ok(
                BlockResponseView {
                    num_blocks,
                    global_txo_count,
                    blocks: found_blocks(indices, outcomes),
                },
            ),
        }
    }
}

/// A run goes on after the search for a block as if the search had been a single step.
proof fn lemma_run_past_lookup<T, E>(
    settings: WatcherSettings,
    run: BlockRunView<T>,
    searched: Seq<BlockReply<T, E>>,
    found: Result<Block<T>, E>,
    later: Seq<BlockReply<T, E>>,
    result: Result<BlockResponseView<T>, E>,
)
    requires
        run.stage is Lookup,
        run.stage->Lookup_0.concludes(settings, searched, found),
        leads_to(
            BlockRunView::resume(run.remaining, run.response.with(found)),
            settings,
            later,
            result,
        ),
    ensures
        run.concludes(settings, searched + later, result),
    decreases searched.len(),
{
    let lookup = run.stage->Lookup_0;
    let replies = searched + later;
    assert(replies[0] == searched[0]);
    assert(replies.drop_first() =~= searched.drop_first() + later);
    match lookup.after(settings, searched[0]) {
        Progress::Pending(next) => {
            lemma_run_past_lookup(
                settings,
                BlockRunView { stage: BlockStage::Lookup(next), ..run },
                searched.drop_first(),
                found,
                later,
                result,
            );
        },
        Progress::Done(_) => {
            assert(searched.drop_first() + later =~= later);
        },
    }
}

/// From where the first of `remaining` is to be looked up, a run gets the replies of the outcomes
/// and ends with the blocks found added to its response.
proof fn lemma_rest_concludes<T, E>(
    settings: WatcherSettings,
    remaining: Seq<u64>,
    response: BlockResponseView<T>,
    outcomes: Seq<BlockOutcome<T, E>>,
)
    requires
        outcomes.len() == remaining.len(),
        all_valid(outcomes),
    ensures
        leads_to(
            BlockRunView::resume(remaining, response),
            settings,
            all_replies(outcomes),
            Ok(
                BlockResponseView {
                    blocks: response.blocks + found_blocks(remaining, outcomes),
                    ..response
                },
            ),
        ),
    decreases outcomes.len(),
{
    let whole = BlockResponseView {
        blocks: response.blocks + found_blocks(remaining, outcomes),
        ..response
    };
    if outcomes.len() == 0 {
        assert(whole.blocks =~= response.blocks);
    } else {
        let found = outcomes[0].result(remaining[0]);
        let next = response.with(found);
        let later = outcomes.drop_first();
        assert forall|i: int| 0 <= i < later.len() implies (#[trigger] later[i]).is_valid() by {
            assert(later[i] == outcomes[i + 1]);
        }
        lemma_rest_concludes(settings, remaining.drop_first(), next, later);
        assert(next.blocks + found_blocks(remaining.drop_first(), later) =~= whole.blocks);
        law_lookup_concludes(settings, remaining[0], outcomes[0]);
        lemma_run_past_lookup(
            settings,
            BlockRunView::resume::<E>(remaining, response)->Pending_0,
            outcomes[0].replies(),
            found,
            all_replies(later),
            Ok(whole),
        );
    }
}

/// A request gets the replies of the session and ends with its result, whatever the ledger and the
/// watcher have to say: with the ledger's own error if one of the two counts fails, and else with
/// both counts and the blocks found.
pub proof fn law_run_concludes<T, E>(
    settings: WatcherSettings,
    indices: Seq<u64>,
    session: BlockSession<T, E>,
)
    requires
        session.is_valid(indices),
    ensures
        BlockRunView::<T>::start(indices).concludes(
            settings,
            session.replies(),
            session.result(indices),
        ),
{
    let start = BlockRunView::<T>::start(indices);
    let replies = session.replies();
    let result = session.result(indices);
    match session {
        BlockSession::NoBlockCount(_) => {},
        BlockSession::NoTxoCount { .. } => {
            let next = start.after(settings, replies[0])->Pending_0;
            assert(next.concludes(settings, replies.drop_first(), result));
        },
        BlockSession::Answered { num_blocks, global_txo_count, outcomes } => {
            let next = start.after(settings, replies[0])->Pending_0;
            let rest = replies.drop_first();
            let empty = BlockResponseView::<T> {
                num_blocks,
                global_txo_count,
                blocks: Seq::empty(),
            };
            lemma_rest_concludes(settings, indices, empty, outcomes);
            assert(empty.blocks + found_blocks(indices, outcomes) =~= found_blocks(
                indices,
                outcomes,
            ));
            assert(rest.drop_first() =~= all_replies(outcomes));
            assert(next.concludes(settings, rest, result));
        },
    }
}

/// Where a run that ended was past the search that it was occupied with, and what the search had
/// found.
proof fn lemma_run_past_lookup_conversation<T, E>(
    settings: WatcherSettings,
    run: BlockRunView<T>,
    replies: Seq<BlockReply<T, E>>,
    result: Result<BlockResponseView<T>, E>,
) -> (split: (Seq<BlockReply<T, E>>, Result<Block<T>, E>, Seq<BlockReply<T, E>>))
    requires
        run.stage is Lookup,
        run.concludes(settings, replies, result),
    ensures
        replies == split.0 + split.2,
        run.stage->Lookup_0.concludes(settings, split.0, split.1),
        leads_to(
            BlockRunView::resume(run.remaining, run.response.with(split.1)),
            settings,
            split.2,
            result,
        ),
    decreases replies.len(),
{
    let lookup = run.stage->Lookup_0;
    match lookup.after(settings, replies[0]) {
        Progress::Pending(next) => {
            let split = lemma_run_past_lookup_conversation(
                settings,
                BlockRunView { stage: BlockStage::Lookup(next), ..run },
                replies.drop_first(),
                result,
            );
            let searched = seq![replies[0]] + split.0;
            assert(searched.drop_first() =~= split.0);
            assert(replies =~= searched + split.2) by {
                assert forall|i: int| 0 < i < replies.len() implies replies[i] == (searched
                    + split.2)[i] by {
                    assert(replies[i] == replies.drop_first()[i - 1]);
                }
            }
            (searched, split.1, split.2)
        },
        Progress::Done(found) => {
            let searched = seq![replies[0]];
            let later = replies.drop_first();
            assert(replies =~= searched + later);
            assert(lookup.concludes(settings, searched, found));
            (searched, found, later)
        },
    }
}

/// The outcomes behind the rest of a run that ended.
proof fn lemma_rest_conversation<T, E>(
    settings: WatcherSettings,
    remaining: Seq<u64>,
    response: BlockResponseView<T>,
    replies: Seq<BlockReply<T, E>>,
    result: Result<BlockResponseView<T>, E>,
) -> (outcomes: Seq<BlockOutcome<T, E>>)
    requires
        leads_to(BlockRunView::resume(remaining, response), settings, replies, result),
    ensures
        outcomes.len() == remaining.len(),
        all_valid(outcomes),
        replies == all_replies(outcomes),
        result == Ok::<BlockResponseView<T>, E>(
            BlockResponseView {
                blocks: response.blocks + found_blocks(remaining, outcomes),
                ..response
            },
        ),
    decreases remaining.len(),
{
    if remaining.len() == 0 {
        let outcomes = Seq::<BlockOutcome<T, E>>::empty();
        assert(replies =~= all_replies(outcomes));
        assert(response.blocks + found_blocks(remaining, outcomes) =~= response.blocks);
        outcomes
    } else {
        let run = BlockRunView::resume::<E>(remaining, response)->Pending_0;
        let (searched, found, later) = lemma_run_past_lookup_conversation(
            settings,
            run,
            replies,
            result,
        );
        let outcome = lemma_lookup_conversation(settings, remaining[0], searched, found);
        let next = response.with(found);
        let rest = lemma_rest_conversation(
            settings,
            remaining.drop_first(),
            next,
            later,
            result,
        );
        let outcomes = seq![outcome] + rest;
        assert(outcomes.drop_first() =~= rest);
        assert forall|i: int| 0 <= i < outcomes.len() implies (
        #[trigger] outcomes[i]).is_valid() by {
            if i > 0 {
                assert(outcomes[i] == rest[i - 1]);
            }
        }
        assert(next.blocks + found_blocks(remaining.drop_first(), rest) =~= response.blocks
            + found_blocks(remaining, outcomes));
        outcomes
    }
}

/// There are no other runs: every run for a request that ends is one of a session, with its
/// replies and its result.
pub proof fn law_run_conversations<T, E>(
    settings: WatcherSettings,
    indices: Seq<u64>,
    replies: Seq<BlockReply<T, E>>,
    result: Result<BlockResponseView<T>, E>,
)
    requires
        BlockRunView::<T>::start(indices).concludes(settings, replies, result),
    ensures
        exists|session: BlockSession<T, E>|
            #![trigger session.is_valid(indices)]
            session.is_valid(indices) && replies == session.replies() && result == session.result(
                indices,
            ),
{
    let start = BlockRunView::<T>::start(indices);
    match replies[0]->NumBlocks_0 {
        Err(error) => {
            let session = BlockSession::<T, E>::NoBlockCount(error);
            assert(replies =~= session.replies());
            assert(session.is_valid(indices));
        },
        Ok(num_blocks) => {
            let next = start.after(settings, replies[0])->Pending_0;
            let rest = replies.drop_first();
            assert(next.concludes(settings, rest, result));
            match rest[0]->NumTxos_0 {
                Err(error) => {
                    let session = BlockSession::<T, E>::NoTxoCount { num_blocks, error };
                    assert(replies =~= session.replies());
                    assert(session.is_valid(indices));
                },
                Ok(global_txo_count) => {
                    let later = rest.drop_first();
                    let empty = BlockResponseView::<T> {
                        num_blocks,
                        global_txo_count,
                        blocks: Seq::empty(),
                    };
                    let outcomes = lemma_rest_conversation(settings, indices, empty, later, result);
                    let session = BlockSession::Answered { num_blocks, global_txo_count, outcomes };
                    assert(empty.blocks + found_blocks(indices, outcomes) =~= found_blocks(
                        indices,
                        outcomes,
                    ));
                    assert(replies =~= session.replies()) by {
                        assert(replies[1] == rest[0]);
                        assert forall|i: int| 2 <= i < replies.len() implies replies[i]
                            == session.replies()[i] by {
                            assert(replies[i] == later[i - 2]);
                        }
                    }
                    assert(session.is_valid(indices));
                },
            }
        },
    }
}

/// A request asks for the indices that lie in one of its ranges, and for no others.
pub proof fn law_requested_indices(request: BlockRequest, index: u64)
    ensures
        request.indices().contains(index) <==> exists|i: int|
            0 <= i < request.ranges@.len() && (#[trigger] request.ranges@[i]).start_block <= index
                < request.ranges@[i].end_block,
{
    lemma_requested_indices(request.ranges@, index);
}

proof fn lemma_requested_indices(ranges: Seq<BlockRange>, index: u64)
    ensures
        crate::block::requested(ranges).contains(index) <==> exists|i: int|
            0 <= i < ranges.len() && (#[trigger] ranges[i]).start_block <= index
                < ranges[i].end_block,
    decreases ranges.len(),
{
    if ranges.len() > 0 {
        let first = ranges[0];
        let rest = ranges.drop_first();
        let here = first.indices();
        let later = crate::block::requested(rest);
        lemma_requested_indices(rest, index);
        assert(forall|i: int| 0 <= i < rest.len() ==> #[trigger] rest[i] == ranges[i + 1]);
        assert(forall|i: int| 0 < i < ranges.len() ==> #[trigger] ranges[i] == rest[i - 1]);
        if first.start_block <= index < first.end_block {
            let at = index - first.start_block;
            assert(here[at] == index);
            assert((here + later)[at] == index);
        }
        if later.contains(index) {
            let at = choose|at: int| 0 <= at < later.len() && later[at] == index;
            assert((here + later)[here.len() + at] == index);
        }
        if (here + later).contains(index) {
            let at = choose|at: int|
                0 <= at < (here + later).len() && (here + later)[at] == index;
            if at < here.len() {
                assert(here[at] == index);
            } else {
                assert(later[at - here.len()] == index);
            }
        }
    }
}

/// The positions, in the order of the searches, of those that find their block.
pub open spec fn found_positions<T, E>(outcomes: Seq<BlockOutcome<T, E>>) -> Seq<int>
    decreases outcomes.len(),
{
    if outcomes.len() == 0 {
        Seq::empty()
    } else {
        let earlier = found_positions(outcomes.drop_last());
        if outcomes.last() is Found {
            earlier.push(outcomes.len() - 1)
        } else {
            earlier
        }
    }
}

/// One search more at the end adds its block, if it finds one, at the end.
proof fn lemma_found_blocks_last<T, E>(indices: Seq<u64>, outcomes: Seq<BlockOutcome<T, E>>)
    requires
        outcomes.len() > 0,
        indices.len() == outcomes.len(),
    ensures
        found_blocks(indices, outcomes) == match outcomes.last().result(indices.last()) {
            Ok(block) => found_blocks(indices.drop_last(), outcomes.drop_last()).push(block),
            Err(_) => found_blocks(indices.drop_last(), outcomes.drop_last()),
        },
    decreases outcomes.len(),
{
    if outcomes.len() == 1 {
        assert(found_blocks(indices.drop_first(), outcomes.drop_first()) =~= Seq::empty());
        assert(found_blocks(indices.drop_last(), outcomes.drop_last()) =~= Seq::empty());
        assert(found_blocks(indices, outcomes) =~= match outcomes.last().result(indices.last()) {
            Ok(block) => Seq::empty().push(block),
            Err(_) => Seq::empty(),
        });
    } else {
        lemma_found_blocks_last(indices.drop_first(), outcomes.drop_first());
        assert(indices.drop_first().drop_last() =~= indices.drop_last().drop_first());
        assert(outcomes.drop_first().drop_last() =~= outcomes.drop_last().drop_first());
        assert(found_blocks(indices, outcomes) =~= match outcomes.last().result(indices.last()) {
            Ok(block) => found_blocks(indices.drop_last(), outcomes.drop_last()).push(block),
            Err(_) => found_blocks(indices.drop_last(), outcomes.drop_last()),
        });
    }
}

/// The blocks of a response come in the order in which their indices were requested, each from
/// the search at its own position, and a search that finds its block has it in the response.
pub proof fn law_blocks_in_request_order<T, E>(
    indices: Seq<u64>,
    outcomes: Seq<BlockOutcome<T, E>>,
)
    requires
        indices.len() == outcomes.len(),
    ensures
        found_blocks(indices, outcomes).len() == found_positions(outcomes).len(),
        forall|j: int, k: int|
            0 <= j < k < found_positions(outcomes).len() ==> found_positions(outcomes)[j]
                < found_positions(outcomes)[k],
        forall|k: int|
            #![trigger found_positions(outcomes)[k]]
            0 <= k < found_positions(outcomes).len() ==> {
                let i = found_positions(outcomes)[k];
                &&& 0 <= i < indices.len()
                &&& outcomes[i].result(indices[i]) == Ok::<Block<T>, E>(
                    found_blocks(indices, outcomes)[k],
                )
                &&& found_blocks(indices, outcomes)[k].index == indices[i]
            },
        forall|i: int|
            0 <= i < outcomes.len() && (#[trigger] outcomes[i]) is Found
                ==> found_positions(outcomes).contains(i),
    decreases outcomes.len(),
{
    if outcomes.len() > 0 {
        let fewer = outcomes.drop_last();
        let earlier = found_positions(fewer);
        let positions = found_positions(outcomes);
        law_blocks_in_request_order(indices.drop_last(), fewer);
        lemma_found_blocks_last(indices, outcomes);
        assert forall|k: int|
            #![trigger found_positions(outcomes)[k]]
            0 <= k < positions.len() implies {
            let i = found_positions(outcomes)[k];
            &&& 0 <= i < indices.len()
            &&& outcomes[i].result(indices[i]) == Ok::<Block<T>, E>(
                found_blocks(indices, outcomes)[k],
            )
            &&& found_blocks(indices, outcomes)[k].index == indices[i]
        } by {
            if k < earlier.len() {
                let i = earlier[k];
                assert(fewer[i] == outcomes[i]);
                assert(indices.drop_last()[i] == indices[i]);
            }
        }
        assert forall|i: int| 0 <= i < outcomes.len() && (#[trigger] outcomes[i]) is Found implies
            positions.contains(i) by {
            if i < fewer.len() {
                assert(fewer[i] is Found);
                let k = choose|k: int| 0 <= k < earlier.len() && earlier[k] == i;
                assert(positions[k] == i);
            } else {
                assert(positions[positions.len() - 1] == i);
            }
        }
    }
}

/// While the watcher settles nothing, a run that waits for a timestamp stays with its block: only
/// the wait before the next question changes, and it is the one that the settings prescribe.
pub proof fn law_unsettled_poll_keeps_block<T, E>(
    settings: WatcherSettings,
    run: BlockRunView<T>,
    poll: Poll,
)
    requires
        run.stage matches BlockStage::Lookup(BlockLookup::Timestamp { .. }),
        poll.reply.settles() is None,
    ensures
        run.after(settings, BlockReply::<T, E>::Timestamp(poll)) == Progress::<
            BlockRunView<T>,
            Result<BlockResponseView<T>, E>,
        >::Pending(
            BlockRunView {
                stage: BlockStage::Lookup(
                    BlockLookup::Timestamp {
                        index: run.stage->Lookup_0->Timestamp_index,
                        outputs: run.stage->Lookup_0->Timestamp_outputs,
                        global_txo_count: run.stage->Lookup_0->Timestamp_global_txo_count,
                        wait: Some(settings.wait_after(poll)),
                    },
                ),
                ..run
            },
        ),
{
}

/// A reply to another question than the open one changes nothing.
pub proof fn law_stray_reply_changes_nothing<T, E>(
    settings: WatcherSettings,
    run: BlockRunView<T>,
    reply: BlockReply<T, E>,
)
    requires
        !run.asks().is_answered_by(reply),
    ensures
        run.after(settings, reply) == Progress::<
            BlockRunView<T>,
            Result<BlockResponseView<T>, E>,
        >::Pending(run),
{
}

impl<T> BlockRunView<T> {
    /// The largest number of replies after which the run is over, rounds of polling that settle
    /// nothing aside.
    pub open spec fn replies_left(self) -> nat {
        let here: nat = match self.stage {
            BlockStage::NumBlocks => 2,
            BlockStage::NumTxos => 1,
            BlockStage::Lookup(BlockLookup::Contents { .. }) => 3,
            BlockStage::Lookup(BlockLookup::Header { .. }) => 2,
            BlockStage::Lookup(BlockLookup::Timestamp { .. }) => 1,
        };
        here + 3 * self.remaining.len()
    }
}

/// Only the watcher can hold a run up: any reply to the open question, a round of polling that
/// settles nothing aside, ends the run or brings it nearer to its end.
pub proof fn law_only_the_watcher_holds_a_run_up<T, E>(
    settings: WatcherSettings,
    run: BlockRunView<T>,
    reply: BlockReply<T, E>,
)
    requires
        run.asks().is_answered_by(reply),
        reply matches BlockReply::Timestamp(poll) ==> poll.reply.settles() is Some,
    ensures
        run.after(settings, reply) matches Progress::Pending(next) ==> next.replies_left()
            < run.replies_left(),
{
}

/// The polling for a block begins without a wait: the question for a timestamp that follows upon
/// the reply to another question is the first one for the block.
pub proof fn law_polling_begins_without_wait<T, E>(
    settings: WatcherSettings,
    run: BlockRunView<T>,
    reply: BlockReply<T, E>,
)
    requires
        run.asks().is_answered_by(reply),
        !(reply is Timestamp),
    ensures
        run.after(settings, reply) matches Progress::Pending(next) ==> (
        next.asks() matches BlockQuery::Timestamp { wait, .. } ==> wait is None),
{
}

} // verus!
