//! What the service that hands out blocks is for, in terms of requests, of the questions and
//! replies that pass, and of responses.
use vstd::prelude::*;

use crate::block::{Block, BlockRange, BlockRequest, BlockResponse, BlockResponseView};
use crate::block_service::{BlockLookup, BlockQuery, BlockReply, BlockRunView, BlockStage};
use crate::progress::Progress;
use crate::watcher::{Poll, TimestampResultCode, Wait, WatcherReply, WatcherSettings};

verus! {

/// A request for a single range asks for its indices one by one, from the first to the last.
pub proof fn law_single_range(request: BlockRequest, range: BlockRange)
    requires
        request.ranges@ == seq![range],
    ensures
        range.start_block >= range.end_block ==> request.indices().len() == 0,
        range.start_block < range.end_block ==> request.indices().len() == range.end_block
            - range.start_block,
        forall|i: int|
            0 <= i < request.indices().len() ==> #[trigger] request.indices()[i]
                == range.start_block + i,
{
    assert(request.ranges@.drop_first() =~= Seq::empty());
    assert(crate::block::requested(request.ranges@.drop_first()) =~= Seq::empty());
    assert(request.indices() =~= range.indices());
}

/// A request without ranges asks for nothing.
pub proof fn law_no_ranges(request: BlockRequest)
    requires
        request.ranges@.len() == 0,
    ensures
        request.indices().len() == 0,
{
}

/// A request whose ranges are those of one request followed by those of another asks for what the
/// one asks for, followed by what the other asks for.
pub proof fn law_requests_join(first: BlockRequest, second: BlockRequest, both: BlockRequest)
    requires
        both.ranges@ == first.ranges@ + second.ranges@,
    ensures
        both.indices() == first.indices() + second.indices(),
{
    lemma_requested_joins(first.ranges@, second.ranges@);
}

proof fn lemma_requested_joins(first: Seq<BlockRange>, second: Seq<BlockRange>)
    ensures
        crate::block::requested(first + second) == crate::block::requested(first)
            + crate::block::requested(second),
    decreases first.len(),
{
    if first.len() == 0 {
        assert(first + second =~= second);
        assert(crate::block::requested(first) + crate::block::requested(second)
            =~= crate::block::requested(second));
    } else {
        lemma_requested_joins(first.drop_first(), second);
        assert((first + second).drop_first() =~= first.drop_first() + second);
        assert(crate::block::requested(first + second) =~= crate::block::requested(first)
            + crate::block::requested(second));
    }
}

/// An index is asked for as many times as there are ranges that it lies in.
pub proof fn law_once_per_range(request: BlockRequest, index: u64)
    ensures
        request.indices().to_multiset().count(index) == request.ranges@.filter(
            |range: BlockRange| range.start_block <= index < range.end_block,
        ).len(),
{
    lemma_once_per_range(request.ranges@, index);
}

proof fn lemma_once_per_range(ranges: Seq<BlockRange>, index: u64)
    ensures
        crate::block::requested(ranges).to_multiset().count(index) == ranges.filter(
            |range: BlockRange| range.start_block <= index < range.end_block,
        ).len(),
    decreases ranges.len(),
{
    broadcast use vstd::multiset::group_multiset_axioms;

    let around = |range: BlockRange| range.start_block <= index < range.end_block;
    if ranges.len() == 0 {
        assert(crate::block::requested(ranges) =~= Seq::empty());
        crate::block::requested(ranges).to_multiset_ensures();
        assert(ranges.filter(around).len() == 0) by {
            reveal(Seq::filter);
        }
    } else {
        let first = ranges[0];
        let here = first.indices();
        let rest = ranges.drop_first();
        let later = crate::block::requested(rest);
        lemma_once_per_range(rest, index);
        assert(crate::block::requested(ranges).to_multiset().count(index)
            == here.to_multiset().count(index) + later.to_multiset().count(index)) by {
            vstd::seq_lib::lemma_multiset_commutative(here, later);
        }
        assert(here.to_multiset().count(index) == if around(first) {
            1nat
        } else {
            0nat
        }) by {
            here.to_multiset_ensures();
            assert(here.no_duplicates());
            here.lemma_multiset_has_no_duplicates();
            if around(first) {
                assert(here[index - first.start_block] == index);
                assert(here.contains(index));
            } else {
                assert(!here.contains(index));
            }
        }
        assert(seq![first].filter(around).len() == if around(first) {
            1nat
        } else {
            0nat
        }) by {
            reveal(Seq::filter);
            assert(seq![first].drop_last() =~= Seq::empty());
            assert(seq![first].drop_last().filter(around).len() == 0);
        }
        assert(ranges.filter(around) == seq![first].filter(around) + rest.filter(around)) by {
            assert(ranges =~= seq![first] + rest);
            Seq::filter_distributes_over_add(seq![first], rest, around);
        }
    }
}

/// The search for the block at `index` asks for the contents of that block, for that block and for
/// the timestamp of that block, in this order, and ends with what the replies say. A ledger error
/// ends it at once. Rounds of polling that settle nothing leave no trace in what it ends with.
pub proof fn law_search_for_a_block<T, E>(
    settings: WatcherSettings,
    index: u64,
    contents: Result<Vec<T>, E>,
    header: Result<u64, E>,
    poll: Poll,
)
    ensures
        ({
            let first = BlockLookup::<T>::Contents { index };
            &&& first.asks() == BlockQuery::BlockContents(index)
            &&& match contents {
                Err(error) => first.after(settings, BlockReply::BlockContents(contents))
                    == Progress::<BlockLookup<T>, Result<Block<T>, E>>::Done(Err(error)),
                Ok(outputs) => first.after(settings, BlockReply::BlockContents(contents)) matches
                    Progress::Pending(second) && second == (BlockLookup::Header { index, outputs })
                    && second.asks() == BlockQuery::Block(index) && match header {
                    Err(error) => second.after(settings, BlockReply::Block(header))
                        == Progress::<BlockLookup<T>, Result<Block<T>, E>>::Done(Err(error)),
                    Ok(count) => second.after(settings, BlockReply::Block(header)) matches
                        Progress::Pending(third) && third == (BlockLookup::Timestamp {
                        index,
                        outputs,
                        global_txo_count: count,
                        wait: None,
                    }) && third.asks() == (BlockQuery::Timestamp {
                        block_index: index,
                        wait: None,
                    }) && match poll.reply {
                        WatcherReply::Answer {
                            timestamp,
                            code: TimestampResultCode::TimestampFound,
                            code_number,
                        } => third.after(settings, BlockReply::<T, E>::Timestamp(poll)) matches
                            Progress::Done(Ok(block)) && block.index == index && block.outputs
                            == outputs && block.global_txo_count == count && block.timestamp
                            == timestamp && block.timestamp_result_code == code_number,
                        WatcherReply::Answer {
                            timestamp: _,
                            code: TimestampResultCode::BlockIndexOutOfBounds,
                            code_number,
                        } => third.after(settings, BlockReply::<T, E>::Timestamp(poll)) matches
                            Progress::Done(Ok(block)) && block.index == index && block.outputs
                            == outputs && block.global_txo_count == count && block.timestamp
                            == u64::MAX && block.timestamp_result_code == code_number,
                        _ => third.after(settings, BlockReply::<T, E>::Timestamp(poll)) matches
                            Progress::Pending(again) && (again.asks() matches BlockQuery::Timestamp {
                            block_index,
                            wait,
                        } && block_index == index && wait is Some) && (forall|next: Poll|
                            #![trigger again.after(settings, BlockReply::<T, E>::Timestamp(next))]
                            again.after(settings, BlockReply::<T, E>::Timestamp(next))
                                == third.after(settings, BlockReply::<T, E>::Timestamp(next))),
                    },
                },
            }
        }),
{
}

/// Whatever state a search is in, the wait before its next question for a timestamp is the one that
/// the last round of polling calls for: the polling frequency if the watcher is behind and the error
/// retry frequency otherwise, overdue only if the watcher is behind for more than the timeout.
pub proof fn law_wait_before_the_next_question<T, E>(
    settings: WatcherSettings,
    lookup: BlockLookup<T>,
    poll: Poll,
    next: BlockLookup<T>,
)
    requires
        lookup.asks() is Timestamp,
        lookup.after(settings, BlockReply::<T, E>::Timestamp(poll)) == Progress::<
            BlockLookup<T>,
            Result<Block<T>, E>,
        >::Pending(next),
    ensures
        next.asks() matches BlockQuery::Timestamp { block_index, wait: Some(wait) } && block_index
            == lookup.asks()->Timestamp_block_index && {
            let behind = poll.reply matches WatcherReply::Answer {
                code: TimestampResultCode::WatcherBehind,
                ..
            };
            &&& wait.sleep == if behind {
                settings.polling_frequency
            } else {
                settings.error_retry_frequency
            }
            &&& wait.overdue <==> behind && poll.elapsed.secs * 1_000_000_000 + poll.elapsed.nanos
                > settings.watcher_timeout.secs * 1_000_000_000 + settings.watcher_timeout.nanos
            &&& wait.restarts_timer <==> wait.overdue || !behind
        },
{
}

/// A run asks for the number of blocks, for the number of transaction outputs and, if anything was
/// requested, for the contents of the first requested block. An error of the ledger in one of the
/// counts is what the run ends with.
pub proof fn law_run_opens<T, E>(
    settings: WatcherSettings,
    indices: Seq<u64>,
    num_blocks: Result<u64, E>,
    num_txos: Result<u64, E>,
)
    ensures
        ({
            let first = BlockRunView::<T>::start(indices);
            &&& first.asks() == BlockQuery::NumBlocks
            &&& match num_blocks {
                Err(error) => first.after(settings, BlockReply::NumBlocks(num_blocks))
                    == Progress::<BlockRunView<T>, Result<BlockResponseView<T>, E>>::Done(
                    Err(error),
                ),
                Ok(blocks) => first.after(settings, BlockReply::NumBlocks(num_blocks)) matches
                    Progress::Pending(second) && second.asks() == BlockQuery::NumTxos
                    && match num_txos {
                    Err(error) => second.after(settings, BlockReply::NumTxos(num_txos))
                        == Progress::<BlockRunView<T>, Result<BlockResponseView<T>, E>>::Done(
                        Err(error),
                    ),
                    Ok(txos) => if indices.len() == 0 {
                        second.after(settings, BlockReply::NumTxos(num_txos)) matches
                            Progress::Done(Ok(response)) && response.num_blocks == blocks
                            && response.global_txo_count == txos && response.blocks.len() == 0
                    } else {
                        second.after(settings, BlockReply::NumTxos(num_txos)) matches
                            Progress::Pending(third) && third.asks() == BlockQuery::BlockContents(
                            indices[0],
                        ) && third.remaining == indices.skip(1) && third.response.num_blocks
                            == blocks && third.response.global_txo_count == txos
                            && third.response.blocks.len() == 0
                    },
                },
            }
        }),
{
}

/// A run that looks a block up asks what the search for it asks, and nothing but the search changes
/// until it ends. The block that it ends with goes behind the others, an error leaves no trace, and
/// the run asks for the contents of the next block or, if there is none, is over.
pub proof fn law_run_follows_its_search<T, E>(
    settings: WatcherSettings,
    run: BlockRunView<T>,
    lookup: BlockLookup<T>,
    reply: BlockReply<T, E>,
)
    requires
        run.stage == BlockStage::Lookup(lookup),
    ensures
        run.asks() == lookup.asks(),
        match lookup.after(settings, reply) {
            Progress::Pending(next) => run.after(settings, reply) matches Progress::Pending(after)
                && after.stage == BlockStage::Lookup(next) && after.remaining == run.remaining
                && after.response == run.response,
            Progress::Done(found) => {
                let blocks = match found {
                    Ok(block) => run.response.blocks + seq![block],
                    Err(_) => run.response.blocks,
                };
                if run.remaining.len() == 0 {
                    run.after(settings, reply) matches Progress::Done(Ok(response))
                        && response.num_blocks == run.response.num_blocks
                        && response.global_txo_count == run.response.global_txo_count
                        && response.blocks == blocks
                } else {
                    run.after(settings, reply) matches Progress::Pending(after) && after.asks()
                        == BlockQuery::BlockContents(run.remaining[0]) && after.remaining
                        == run.remaining.skip(1) && after.response.num_blocks
                        == run.response.num_blocks && after.response.global_txo_count
                        == run.response.global_txo_count && after.response.blocks == blocks
                }
            },
        },
{
    if let Progress::Done(Ok(block)) = lookup.after(settings, reply) {
        assert(run.response.blocks.push(block) =~= run.response.blocks + seq![block]);
    }
    if run.remaining.len() > 0 {
        assert(run.remaining.drop_first() =~= run.remaining.skip(1));
    }
}

/// A reply that is not one to the question asked changes nothing, in a search and in a run.
pub proof fn law_only_a_fitting_reply_counts<T, E>(
    settings: WatcherSettings,
    lookup: BlockLookup<T>,
    run: BlockRunView<T>,
    reply: BlockReply<T, E>,
)
    ensures
        match lookup.asks() {
            BlockQuery::BlockContents(_) => reply is BlockContents,
            BlockQuery::Block(_) => reply is Block,
            BlockQuery::Timestamp { .. } => reply is Timestamp,
            _ => false,
        } || lookup.after(settings, reply) == Progress::<
            BlockLookup<T>,
            Result<Block<T>, E>,
        >::Pending(lookup),
        match run.asks() {
            BlockQuery::NumBlocks => reply is NumBlocks,
            BlockQuery::NumTxos => reply is NumTxos,
            BlockQuery::BlockContents(_) => reply is BlockContents,
            BlockQuery::Block(_) => reply is Block,
            BlockQuery::Timestamp { .. } => reply is Timestamp,
        } || run.after(settings, reply) == Progress::<
            BlockRunView<T>,
            Result<BlockResponseView<T>, E>,
        >::Pending(run),
{
}

/// What a search in the midst of polling makes of a round does not depend on the wait before it,
/// and the question that it has open carries that wait.
pub proof fn law_wait_does_not_bear_on_the_block<T, E>(
    settings: WatcherSettings,
    index: u64,
    outputs: Vec<T>,
    global_txo_count: u64,
    wait: Option<Wait>,
    other: Option<Wait>,
    poll: Poll,
)
    ensures
        ({
            let one = BlockLookup::Timestamp { index, outputs, global_txo_count, wait };
            let another = BlockLookup::Timestamp { index, outputs, global_txo_count, wait: other };
            &&& one.asks() == BlockQuery::Timestamp { block_index: index, wait }
            &&& one.after(settings, BlockReply::<T, E>::Timestamp(poll)) == another.after(
                settings,
                BlockReply::<T, E>::Timestamp(poll),
            )
        }),
{
}

/// A response says what its fields hold.
pub proof fn law_response_says_its_fields<T>(response: BlockResponse<T>)
    ensures
        response@.num_blocks == response.num_blocks,
        response@.global_txo_count == response.global_txo_count,
        response@.blocks == response.blocks@,
{
}

/// What the ledger and the watcher hold: the two counts, for each index the outputs among the
/// contents of the block and the output count of the block, and the timestamp with its code that is
/// to be reported for the block.
pub struct BlockFacts<T, E> {
    pub num_blocks: Result<u64, E>,
    pub num_txos: Result<u64, E>,
    pub contents: spec_fn(u64) -> Result<Vec<T>, E>,
    pub headers: spec_fn(u64) -> Result<u64, E>,
    pub stamps: spec_fn(u64) -> (u64, u32),
}

/// Whether a run passes through `runs`, gets the reply at the same place in each of them, and ends
/// with `result` on the last one, where every reply tells the facts about what was asked.
spec fn is_told<T, E>(
    settings: WatcherSettings,
    facts: BlockFacts<T, E>,
    runs: Seq<BlockRunView<T>>,
    replies: Seq<BlockReply<T, E>>,
    result: Result<BlockResponseView<T>, E>,
) -> bool {
    &&& runs.len() == replies.len()
    &&& runs.len() > 0
    &&& forall|k: int|
        0 <= k < replies.len() - 1 ==> runs[k].after(settings, #[trigger] replies[k]) == Progress::<
            BlockRunView<T>,
            Result<BlockResponseView<T>, E>,
        >::Pending(runs[k + 1])
    &&& runs.last().after(settings, replies.last()) == Progress::<
        BlockRunView<T>,
        Result<BlockResponseView<T>, E>,
    >::Done(result)
    &&& forall|k: int|
        0 <= k < replies.len() ==> match runs[k].asks() {
            BlockQuery::NumBlocks => #[trigger] replies[k] == BlockReply::<T, E>::NumBlocks(
                facts.num_blocks,
            ),
            BlockQuery::NumTxos => replies[k] == BlockReply::<T, E>::NumTxos(facts.num_txos),
            BlockQuery::BlockContents(index) => replies[k] == BlockReply::<T, E>::BlockContents(
                (facts.contents)(index),
            ),
            BlockQuery::Block(index) => replies[k] == BlockReply::<T, E>::Block(
                (facts.headers)(index),
            ),
            BlockQuery::Timestamp { block_index, .. } => replies[k] matches BlockReply::Timestamp(
                poll,
            ) && (poll.reply matches WatcherReply::Answer { timestamp, code, code_number } ==> {
                &&& code == TimestampResultCode::TimestampFound ==> (facts.stamps)(block_index) == (
                    timestamp,
                    code_number,
                )
                &&& code == TimestampResultCode::BlockIndexOutOfBounds ==> (facts.stamps)(
                    block_index,
                ) == (u64::MAX, code_number)
            }),
        }
}

/// Whether the ledger gives the block at `index`.
spec fn is_readable<T, E>(facts: BlockFacts<T, E>, index: u64) -> bool {
    (facts.contents)(index) is Ok && (facts.headers)(index) is Ok
}

/// The block at `index` by the facts.
spec fn factual<T, E>(facts: BlockFacts<T, E>, index: u64) -> Block<T> {
    Block {
        index,
        outputs: (facts.contents)(index)->Ok_0,
        global_txo_count: (facts.headers)(index)->Ok_0,
        timestamp: (facts.stamps)(index).0,
        timestamp_result_code: (facts.stamps)(index).1,
    }
}

/// The blocks at `indices` that the ledger gives, by the facts.
spec fn all_factual<T, E>(facts: BlockFacts<T, E>, indices: Seq<u64>) -> Seq<Block<T>> {
    indices.filter(|index: u64| is_readable(facts, index)).map_values(
        |index: u64| factual(facts, index),
    )
}

proof fn lemma_all_factual_first<T, E>(facts: BlockFacts<T, E>, index: u64, rest: Seq<u64>)
    ensures
        all_factual(facts, seq![index] + rest) == if is_readable(facts, index) {
            seq![factual(facts, index)] + all_factual(facts, rest)
        } else {
            all_factual(facts, rest)
        },
        all_factual(facts, Seq::empty()) == Seq::<Block<T>>::empty(),
{
    reveal(Seq::filter);
    let readable = |index: u64| is_readable(facts, index);
    Seq::filter_distributes_over_add(seq![index], rest, readable);
    assert(seq![index].drop_last() =~= Seq::empty());
    assert(all_factual(facts, Seq::empty()) =~= Seq::<Block<T>>::empty());
    assert(all_factual(facts, seq![index] + rest) =~= if is_readable(facts, index) {
        seq![factual(facts, index)] + all_factual(facts, rest)
    } else {
        all_factual(facts, rest)
    });
}

/// Whether what a search has gathered so far is what the facts say.
spec fn has_gathered<T, E>(facts: BlockFacts<T, E>, lookup: BlockLookup<T>) -> bool {
    match lookup {
        BlockLookup::Contents { .. } => true,
        BlockLookup::Header { index, outputs } => (facts.contents)(index) == Ok::<Vec<T>, E>(
            outputs,
        ),
        BlockLookup::Timestamp { index, outputs, global_txo_count, .. } => (facts.contents)(index)
            == Ok::<Vec<T>, E>(outputs) && (facts.headers)(index) == Ok::<u64, E>(global_txo_count),
    }
}

/// The index that a search is about.
spec fn index_of<T>(lookup: BlockLookup<T>) -> u64 {
    match lookup {
        BlockLookup::Contents { index } => index,
        BlockLookup::Header { index, .. } => index,
        BlockLookup::Timestamp { index, .. } => index,
    }
}

proof fn lemma_rest_is_factual<T, E>(
    settings: WatcherSettings,
    facts: BlockFacts<T, E>,
    runs: Seq<BlockRunView<T>>,
    replies: Seq<BlockReply<T, E>>,
    result: Result<BlockResponseView<T>, E>,
    k: int,
)
    requires
        is_told(settings, facts, runs, replies, result),
        0 <= k < runs.len(),
        runs[k].stage is Lookup,
        has_gathered(facts, runs[k].stage->Lookup_0),
    ensures
        result == Ok::<BlockResponseView<T>, E>(
            BlockResponseView {
                blocks: runs[k].response.blocks + all_factual(
                    facts,
                    seq![index_of(runs[k].stage->Lookup_0)] + runs[k].remaining,
                ),
                ..runs[k].response
            },
        ),
    decreases runs.len() - k,
{
    let run = runs[k];
    let lookup = run.stage->Lookup_0;
    let index = index_of(lookup);
    let reply = replies[k];
    lemma_all_factual_first(facts, index, run.remaining);
    match lookup.after(settings, reply) {
        Progress::Pending(next) => {
            assert(k < runs.len() - 1);
            lemma_rest_is_factual(settings, facts, runs, replies, result, k + 1);
        },
        Progress::Done(found) => {
            let response = run.response.with(found);
            assert(match found {
                Ok(block) => is_readable(facts, index) && block == factual(facts, index),
                Err(_) => !is_readable(facts, index),
            });
            if run.remaining.len() == 0 {
                assert(k == runs.len() - 1);
                assert(run.remaining =~= Seq::empty());
                assert(response.blocks =~= run.response.blocks + all_factual(
                    facts,
                    seq![index] + run.remaining,
                ));
            } else {
                assert(k < runs.len() - 1);
                lemma_rest_is_factual(settings, facts, runs, replies, result, k + 1);
                assert(seq![run.remaining[0]] + run.remaining.drop_first() =~= run.remaining);
                assert(response.blocks + all_factual(facts, run.remaining) =~= run.response.blocks
                    + all_factual(facts, seq![index] + run.remaining));
            }
        },
    }
}

/// A response tells what the ledger and the watcher hold. If every reply that a run gets states the
/// facts about what the run asked for, the run ends with the ledger's error if one of the counts is
/// an error, and else with the two counts and one block for each time that a block which the ledger
/// gives was requested, in the order of the request, each with the outputs, the output count and the
/// timestamp that belong to its own index.
pub proof fn law_response_tells_the_facts<T, E>(
    settings: WatcherSettings,
    request: BlockRequest,
    facts: BlockFacts<T, E>,
    runs: Seq<BlockRunView<T>>,
    replies: Seq<BlockReply<T, E>>,
    result: Result<BlockResponseView<T>, E>,
)
    requires
        runs.len() == replies.len(),
        runs.len() > 0,
        runs[0] == BlockRunView::<T>::start(request.indices()),
        forall|k: int|
            0 <= k < replies.len() - 1 ==> runs[k].after(settings, #[trigger] replies[k])
                == Progress::<BlockRunView<T>, Result<BlockResponseView<T>, E>>::Pending(
                runs[k + 1],
            ),
        runs.last().after(settings, replies.last()) == Progress::<
            BlockRunView<T>,
            Result<BlockResponseView<T>, E>,
        >::Done(result),
        forall|k: int|
            0 <= k < replies.len() ==> match runs[k].asks() {
                BlockQuery::NumBlocks => #[trigger] replies[k] == BlockReply::<T, E>::NumBlocks(
                    facts.num_blocks,
                ),
                BlockQuery::NumTxos => replies[k] == BlockReply::<T, E>::NumTxos(facts.num_txos),
                BlockQuery::BlockContents(index) => replies[k] == BlockReply::<T, E>::BlockContents(
                    (facts.contents)(index),
                ),
                BlockQuery::Block(index) => replies[k] == BlockReply::<T, E>::Block(
                    (facts.headers)(index),
                ),
                BlockQuery::Timestamp { block_index, .. } => replies[k] matches
                    BlockReply::Timestamp(poll) && (poll.reply matches WatcherReply::Answer {
                    timestamp,
                    code,
                    code_number,
                } ==> {
                    &&& code == TimestampResultCode::TimestampFound ==> (facts.stamps)(block_index)
                        == (timestamp, code_number)
                    &&& code == TimestampResultCode::BlockIndexOutOfBounds ==> (facts.stamps)(
                        block_index,
                    ) == (u64::MAX, code_number)
                }),
            },
    ensures
        match (facts.num_blocks, facts.num_txos) {
            (Err(error), _) => result == Err::<BlockResponseView<T>, E>(error),
            (Ok(_), Err(error)) => result == Err::<BlockResponseView<T>, E>(error),
            (Ok(num_blocks), Ok(num_txos)) => result matches Ok(response) && {
                let given = request.indices().filter(
                    |index: u64| (facts.contents)(index) is Ok && (facts.headers)(index) is Ok,
                );
                &&& response.num_blocks == num_blocks
                &&& response.global_txo_count == num_txos
                &&& response.blocks.len() == given.len()
                &&& forall|i: int|
                    0 <= i < given.len() ==> {
                        &&& (#[trigger] response.blocks[i]).index == given[i]
                        &&& (facts.contents)(given[i]) == Ok::<Vec<T>, E>(
                            response.blocks[i].outputs,
                        )
                        &&& (facts.headers)(given[i]) == Ok::<u64, E>(
                            response.blocks[i].global_txo_count,
                        )
                        &&& (facts.stamps)(given[i]) == (
                            response.blocks[i].timestamp,
                            response.blocks[i].timestamp_result_code,
                        )
                    }
            },
        },
{
    let indices = request.indices();
    assert(is_told(settings, facts, runs, replies, result));
    assert(replies[0] == BlockReply::<T, E>::NumBlocks(facts.num_blocks));
    if facts.num_blocks is Ok {
        assert(runs.len() > 1);
        assert(replies[1] == BlockReply::<T, E>::NumTxos(facts.num_txos));
        if facts.num_txos is Ok {
            let response = result->Ok_0;
            let readable = |index: u64| is_readable(facts, index);
            let given = indices.filter(
                |index: u64| (facts.contents)(index) is Ok && (facts.headers)(index) is Ok,
            );
            assert(readable =~= (
            |index: u64| (facts.contents)(index) is Ok && (facts.headers)(index) is Ok));
            if indices.len() == 0 {
                assert(runs.len() == 2);
                lemma_all_factual_first(facts, 0, indices);
                assert(indices =~= Seq::empty());
                assert(response.blocks =~= all_factual(facts, indices));
            } else {
                assert(runs.len() > 2);
                lemma_rest_is_factual(settings, facts, runs, replies, result, 2);
                assert(seq![indices[0]] + indices.drop_first() =~= indices);
                assert(response.blocks =~= all_factual(facts, indices));
            }
            assert forall|i: int| 0 <= i < given.len() implies {
                &&& (#[trigger] response.blocks[i]).index == given[i]
                &&& (facts.contents)(given[i]) == Ok::<Vec<T>, E>(response.blocks[i].outputs)
                &&& (facts.headers)(given[i]) == Ok::<u64, E>(response.blocks[i].global_txo_count)
                &&& (facts.stamps)(given[i]) == (
                    response.blocks[i].timestamp,
                    response.blocks[i].timestamp_result_code,
                )
            } by {
                indices.lemma_filter_pred(readable, i);
                assert(response.blocks[i] == factual(facts, given[i]));
            }
        } else {
            assert(runs.len() == 2);
        }
    } else {
        assert(runs.len() == 1);
    }
}

/// A run ends. If every reply is one to the question asked and every round of polling settles the
/// timestamp, it passes through no more than two states and three for each requested index.
pub proof fn law_run_ends<T, E>(
    settings: WatcherSettings,
    request: BlockRequest,
    runs: Seq<BlockRunView<T>>,
    replies: Seq<BlockReply<T, E>>,
)
    requires
        runs.len() == replies.len(),
        runs.len() > 0,
        runs[0] == BlockRunView::<T>::start(request.indices()),
        forall|k: int|
            0 <= k < replies.len() - 1 ==> runs[k].after(settings, #[trigger] replies[k])
                == Progress::<BlockRunView<T>, Result<BlockResponseView<T>, E>>::Pending(
                runs[k + 1],
            ),
        forall|k: int|
            0 <= k < replies.len() ==> match runs[k].asks() {
                BlockQuery::NumBlocks => #[trigger] replies[k] is NumBlocks,
                BlockQuery::NumTxos => replies[k] is NumTxos,
                BlockQuery::BlockContents(_) => replies[k] is BlockContents,
                BlockQuery::Block(_) => replies[k] is Block,
                BlockQuery::Timestamp { .. } => replies[k] matches BlockReply::Timestamp(poll) && (
                poll.reply matches WatcherReply::Answer { code, .. } && (code
                    == TimestampResultCode::TimestampFound || code
                    == TimestampResultCode::BlockIndexOutOfBounds)),
            },
    ensures
        runs.len() <= 2 + 3 * request.indices().len(),
{
    lemma_run_ends(settings, runs, replies, 0);
}

proof fn lemma_run_ends<T, E>(
    settings: WatcherSettings,
    runs: Seq<BlockRunView<T>>,
    replies: Seq<BlockReply<T, E>>,
    k: int,
)
    requires
        runs.len() == replies.len(),
        0 <= k < runs.len(),
        forall|k: int|
            0 <= k < replies.len() - 1 ==> runs[k].after(settings, #[trigger] replies[k])
                == Progress::<BlockRunView<T>, Result<BlockResponseView<T>, E>>::Pending(
                runs[k + 1],
            ),
        forall|k: int|
            0 <= k < replies.len() ==> match runs[k].asks() {
                BlockQuery::NumBlocks => #[trigger] replies[k] is NumBlocks,
                BlockQuery::NumTxos => replies[k] is NumTxos,
                BlockQuery::BlockContents(_) => replies[k] is BlockContents,
                BlockQuery::Block(_) => replies[k] is Block,
                BlockQuery::Timestamp { .. } => replies[k] matches BlockReply::Timestamp(poll) && (
                poll.reply matches WatcherReply::Answer { code, .. } && (code
                    == TimestampResultCode::TimestampFound || code
                    == TimestampResultCode::BlockIndexOutOfBounds)),
            },
    ensures
        runs.len() - k <= runs[k].replies_left(),
    decreases runs.len() - k,
{
    if k < runs.len() - 1 {
        lemma_run_ends(settings, runs, replies, k + 1);
        assert(runs[k].asks().is_answered_by(replies[k]));
        crate::block_sessions::law_only_the_watcher_holds_a_run_up(settings, runs[k], replies[k]);
    }
}

/// Only the two counts can make a run fail, and it fails with the ledger's own error.
pub proof fn law_only_counts_fail_a_run<T, E>(
    settings: WatcherSettings,
    run: BlockRunView<T>,
    reply: BlockReply<T, E>,
    error: E,
)
    requires
        run.after(settings, reply) == Progress::<
            BlockRunView<T>,
            Result<BlockResponseView<T>, E>,
        >::Done(Err(error)),
    ensures
        (run.asks() == BlockQuery::NumBlocks && reply == BlockReply::<T, E>::NumBlocks(Err(error)))
            || (run.asks() == BlockQuery::NumTxos && reply == BlockReply::<T, E>::NumTxos(
            Err(error),
        )),
{
}

} // verus!
