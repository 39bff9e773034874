//! What the service that looks transaction outputs up is for, in terms of requests, of the
//! questions and replies that pass, and of responses.
use vstd::prelude::*;

use crate::progress::Progress;
use crate::tx_out::{
    TxOutRequest, TxOutResponse, TxOutResponseView, TxOutResult, TxOutResultCode,
};
use crate::tx_out_service::{
    IndexReply, KeyReply, TxOutLookup, TxOutQuery, TxOutReply, TxOutRunView, TxOutStage,
};
use crate::watcher::{Poll, TimestampResultCode, Wait, WatcherReply, WatcherSettings};

verus! {

/// The search for the transaction output with `key` asks for the index of the output with that very
/// key, for the block of the output at that very index and for the timestamp of that very block, in
/// this order, and ends with what the replies say. That the ledger does not hold the output is a
/// result with nothing but zeros; any other ledger error ends the search at once. Rounds of polling
/// that settle nothing leave no trace in what it ends with.
pub proof fn law_search_for_a_tx_out<K, M, E>(
    settings: WatcherSettings,
    key: K,
    encoded: M,
    tx_out_index: IndexReply<E>,
    block_index: Result<u64, E>,
    poll: Poll,
)
    ensures
        ({
            let first = TxOutLookup::Index { key, encoded };
            let replied = first.after(settings, TxOutReply::TxOutIndex(tx_out_index));
            &&& first.asks() == TxOutQuery::<K, M>::TxOutIndex(&key)
            &&& match tx_out_index {
                IndexReply::Failed(error) => replied == Progress::<
                    TxOutLookup<K, M>,
                    Result<TxOutResult<M>, E>,
                >::Done(Err(error)),
                IndexReply::NotFound => replied matches Progress::Done(Ok(result))
                    && result.tx_out_pubkey == encoded && result.result_code
                    == TxOutResultCode::NotFound && result.tx_out_global_index == 0
                    && result.block_index == 0 && result.timestamp == 0
                    && result.timestamp_result_code == 0,
                IndexReply::Index(i) => replied matches Progress::Pending(second) && second == (
                TxOutLookup::<K, M>::BlockIndex { encoded, tx_out_index: i }) && second.asks()
                    == TxOutQuery::<K, M>::BlockIndex(i) && match block_index {
                    Err(error) => second.after(settings, TxOutReply::BlockIndex(block_index))
                        == Progress::<TxOutLookup<K, M>, Result<TxOutResult<M>, E>>::Done(
                        Err(error),
                    ),
                    Ok(b) => second.after(settings, TxOutReply::BlockIndex(block_index)) matches
                        Progress::Pending(third) && third == (TxOutLookup::<K, M>::Timestamp {
                        encoded,
                        tx_out_index: i,
                        block_index: b,
                        wait: None,
                    }) && (third.asks() matches TxOutQuery::Timestamp { block_index, wait }
                        && block_index == b && wait is None) && match poll.reply {
                        WatcherReply::Answer {
                            timestamp,
                            code: TimestampResultCode::TimestampFound,
                            code_number,
                        } => third.after(settings, TxOutReply::<K, M, E>::Timestamp(poll)) matches
                            Progress::Done(Ok(result)) && result.tx_out_pubkey == encoded
                            && result.result_code == TxOutResultCode::Found
                            && result.tx_out_global_index == i && result.block_index == b
                            && result.timestamp == timestamp && result.timestamp_result_code
                            == code_number,
                        WatcherReply::Answer {
                            timestamp: _,
                            code: TimestampResultCode::BlockIndexOutOfBounds,
                            code_number,
                        } => third.after(settings, TxOutReply::<K, M, E>::Timestamp(poll)) matches
                            Progress::Done(Ok(result)) && result.tx_out_pubkey == encoded
                            && result.result_code == TxOutResultCode::Found
                            && result.tx_out_global_index == i && result.block_index == b
                            && result.timestamp == u64::MAX && result.timestamp_result_code
                            == code_number,
                        _ => third.after(settings, TxOutReply::<K, M, E>::Timestamp(poll)) matches
                            Progress::Pending(again) && (again.asks() matches TxOutQuery::Timestamp {
                            block_index,
                            wait,
                        } && block_index == b && wait is Some) && (forall|next: Poll|
                            #![trigger again.after(settings, TxOutReply::<K, M, E>::Timestamp(next))]
                            again.after(settings, TxOutReply::<K, M, E>::Timestamp(next))
                                == third.after(settings, TxOutReply::<K, M, E>::Timestamp(next))),
                    },
                },
            }
        }),
{
}

/// Whatever state a search is in, the wait before its next question for a timestamp is the one that
/// the last round of polling calls for: the polling frequency if the watcher is behind and the error
/// retry frequency otherwise, overdue only if the watcher is behind for more than the timeout.
pub proof fn law_wait_before_the_next_question<K, M, E>(
    settings: WatcherSettings,
    lookup: TxOutLookup<K, M>,
    poll: Poll,
    next: TxOutLookup<K, M>,
)
    requires
        lookup.asks() is Timestamp,
        lookup.after(settings, TxOutReply::<K, M, E>::Timestamp(poll)) == Progress::<
            TxOutLookup<K, M>,
            Result<TxOutResult<M>, E>,
        >::Pending(next),
    ensures
        next.asks() matches TxOutQuery::Timestamp { block_index, wait: Some(wait) } && block_index
            == lookup.asks()->Timestamp_block_index && {
            let behind = poll.reply matches WatcherReply::Answer {
                code: TimestampResultCode::WatcherBehind,
                ..
            };
            &&& wait.sleep == if behind {
                settings.polling_frequency
            } else {
                settings.error_retry_frequency
            }
            &&& wait.overdue <==> behind && poll.elapsed.secs * 1_000_000_000 + poll.elapsed.nanos
                > settings.watcher_timeout.secs * 1_000_000_000 + settings.watcher_timeout.nanos
            &&& wait.restarts_timer <==> wait.overdue || !behind
        },
{
}

/// What a search in the midst of polling makes of a round does not depend on the wait before it,
/// and the question that it has open carries that wait.
pub proof fn law_wait_does_not_bear_on_the_result<K, M, E>(
    settings: WatcherSettings,
    encoded: M,
    tx_out_index: u64,
    block_index: u64,
    wait: Option<Wait>,
    other: Option<Wait>,
    poll: Poll,
)
    ensures
        ({
            let one = TxOutLookup::<K, M>::Timestamp { encoded, tx_out_index, block_index, wait };
            let another = TxOutLookup::<K, M>::Timestamp {
                encoded,
                tx_out_index,
                block_index,
                wait: other,
            };
            &&& one.asks() matches TxOutQuery::Timestamp { block_index: asked, wait: carried }
                && asked == block_index && carried == wait
            &&& one.after(settings, TxOutReply::<K, M, E>::Timestamp(poll)) == another.after(
                settings,
                TxOutReply::<K, M, E>::Timestamp(poll),
            )
        }),
{
}

/// A run asks for the number of blocks, for the number of transaction outputs and, if anything was
/// requested, for the key in the first requested message. An error of the ledger in one of the
/// counts is what the run ends with.
pub proof fn law_run_opens<K, M, E>(
    settings: WatcherSettings,
    keys: Seq<M>,
    num_blocks: Result<u64, E>,
    num_txos: Result<u64, E>,
)
    ensures
        ({
            let first = TxOutRunView::<K, M>::start(keys);
            &&& first.asks() == TxOutQuery::<K, M>::NumBlocks
            &&& match num_blocks {
                Err(error) => first.after(settings, TxOutReply::NumBlocks(num_blocks))
                    == Progress::<TxOutRunView<K, M>, Result<TxOutResponseView<M>, E>>::Done(
                    Err(error),
                ),
                Ok(blocks) => first.after(settings, TxOutReply::NumBlocks(num_blocks)) matches
                    Progress::Pending(second) && second.asks() == TxOutQuery::<K, M>::NumTxos
                    && match num_txos {
                    Err(error) => second.after(settings, TxOutReply::NumTxos(num_txos))
                        == Progress::<TxOutRunView<K, M>, Result<TxOutResponseView<M>, E>>::Done(
                        Err(error),
                    ),
                    Ok(txos) => if keys.len() == 0 {
                        second.after(settings, TxOutReply::NumTxos(num_txos)) matches
                            Progress::Done(Ok(response)) && response.num_blocks == blocks
                            && response.global_txo_count == txos && response.results.len() == 0
                    } else {
                        second.after(settings, TxOutReply::NumTxos(num_txos)) matches
                            Progress::Pending(third) && third.asks() == TxOutQuery::<K, M>::Key(
                            &keys[0],
                        ) && third.remaining == keys.skip(1) && third.response.num_blocks == blocks
                            && third.response.global_txo_count == txos
                            && third.response.results.len() == 0
                    },
                },
            }
        }),
{
    if keys.len() > 0 {
        assert(keys.drop_first() =~= keys.skip(1));
    }
}

/// A run that needs a key asks which key the requested message carries. A decoded key is searched
/// for as it was decoded, with nothing else changed; of a message without a key the response says
/// just that, with nothing but zeros, and the run goes on to the next message or is over.
pub proof fn law_key_is_decoded_first<K, M, E>(
    settings: WatcherSettings,
    run: TxOutRunView<K, M>,
    requested: M,
    decoded: KeyReply<K, M>,
)
    requires
        run.stage == (TxOutStage::<K, M>::Key { requested }),
    ensures
        run.asks() == TxOutQuery::<K, M>::Key(&requested),
        ({
            let replied = run.after(settings, TxOutReply::<K, M, E>::Key(decoded));
            match decoded {
                KeyReply::Valid(decoded) => replied matches Progress::Pending(after)
                    && after.stage == (TxOutStage::Lookup {
                    requested,
                    lookup: TxOutLookup::Index { key: decoded.key, encoded: decoded.encoded },
                }) && after.asks() == TxOutQuery::<K, M>::TxOutIndex(&decoded.key)
                    && after.remaining == run.remaining && after.response == run.response,
                KeyReply::Malformed => {
                    let malformed = TxOutResult {
                        tx_out_pubkey: requested,
                        result_code: TxOutResultCode::MalformedRequest,
                        tx_out_global_index: 0,
                        block_index: 0,
                        timestamp: 0,
                        timestamp_result_code: 0,
                    };
                    if run.remaining.len() == 0 {
                        replied matches Progress::Done(Ok(response)) && response.num_blocks
                            == run.response.num_blocks && response.global_txo_count
                            == run.response.global_txo_count && response.results
                            == run.response.results + seq![malformed]
                    } else {
                        replied matches Progress::Pending(after) && after.asks()
                            == TxOutQuery::<K, M>::Key(&run.remaining[0]) && after.remaining
                            == run.remaining.skip(1) && after.response.num_blocks
                            == run.response.num_blocks && after.response.global_txo_count
                            == run.response.global_txo_count && after.response.results
                            == run.response.results + seq![malformed]
                    }
                },
            }
        }),
{
    if run.remaining.len() > 0 {
        assert(run.remaining.drop_first() =~= run.remaining.skip(1));
    }
    let malformed = TxOutResult {
        tx_out_pubkey: requested,
        result_code: TxOutResultCode::MalformedRequest,
        tx_out_global_index: 0,
        block_index: 0,
        timestamp: 0,
        timestamp_result_code: 0,
    };
    assert(run.response.results.push(malformed) =~= run.response.results + seq![malformed]);
}

/// A run that searches asks what the search asks, and nothing but the search changes until it ends.
/// The result that it ends with goes behind the others; an error is reported on the requested
/// message, with nothing but zeros. The run goes on to the next message or is over.
pub proof fn law_run_follows_its_search<K, M, E>(
    settings: WatcherSettings,
    run: TxOutRunView<K, M>,
    requested: M,
    lookup: TxOutLookup<K, M>,
    reply: TxOutReply<K, M, E>,
)
    requires
        run.stage == (TxOutStage::Lookup { requested, lookup }),
    ensures
        run.asks() == lookup.asks(),
        match lookup.after(settings, reply) {
            Progress::Pending(next) => run.after(settings, reply) matches Progress::Pending(after)
                && after.stage == (TxOutStage::Lookup { requested, lookup: next })
                && after.remaining == run.remaining && after.response == run.response,
            Progress::Done(searched) => {
                let result = match searched {
                    Ok(result) => result,
                    Err(_) => TxOutResult {
                        tx_out_pubkey: requested,
                        result_code: TxOutResultCode::DatabaseError,
                        tx_out_global_index: 0,
                        block_index: 0,
                        timestamp: 0,
                        timestamp_result_code: 0,
                    },
                };
                if run.remaining.len() == 0 {
                    run.after(settings, reply) matches Progress::Done(Ok(response))
                        && response.num_blocks == run.response.num_blocks
                        && response.global_txo_count == run.response.global_txo_count
                        && response.results == run.response.results + seq![result]
                } else {
                    run.after(settings, reply) matches Progress::Pending(after) && after.asks()
                        == TxOutQuery::<K, M>::Key(&run.remaining[0]) && after.remaining
                        == run.remaining.skip(1) && after.response.num_blocks
                        == run.response.num_blocks && after.response.global_txo_count
                        == run.response.global_txo_count && after.response.results
                        == run.response.results + seq![result]
                }
            },
        },
{
    if run.remaining.len() > 0 {
        assert(run.remaining.drop_first() =~= run.remaining.skip(1));
    }
    if let Progress::Done(searched) = lookup.after(settings, reply) {
        let result = crate::tx_out_service::reported(requested, searched);
        assert(run.response.results.push(result) =~= run.response.results + seq![result]);
    }
}

/// A reply that is not one to the question asked changes nothing, in a search and in a run.
pub proof fn law_only_a_fitting_reply_counts<K, M, E>(
    settings: WatcherSettings,
    lookup: TxOutLookup<K, M>,
    run: TxOutRunView<K, M>,
    reply: TxOutReply<K, M, E>,
)
    ensures
        match lookup.asks() {
            TxOutQuery::TxOutIndex(_) => reply is TxOutIndex,
            TxOutQuery::BlockIndex(_) => reply is BlockIndex,
            TxOutQuery::Timestamp { .. } => reply is Timestamp,
            _ => false,
        } || lookup.after(settings, reply) == Progress::<
            TxOutLookup<K, M>,
            Result<TxOutResult<M>, E>,
        >::Pending(lookup),
        match run.asks() {
            TxOutQuery::NumBlocks => reply is NumBlocks,
            TxOutQuery::NumTxos => reply is NumTxos,
            TxOutQuery::Key(_) => reply is Key,
            TxOutQuery::TxOutIndex(_) => reply is TxOutIndex,
            TxOutQuery::BlockIndex(_) => reply is BlockIndex,
            TxOutQuery::Timestamp { .. } => reply is Timestamp,
        } || run.after(settings, reply) == Progress::<
            TxOutRunView<K, M>,
            Result<TxOutResponseView<M>, E>,
        >::Pending(run),
{
}

/// Only the two counts can make a run fail, and it fails with the ledger's own error.
pub proof fn law_only_counts_fail_a_run<K, M, E>(
    settings: WatcherSettings,
    run: TxOutRunView<K, M>,
    reply: TxOutReply<K, M, E>,
    error: E,
)
    requires
        run.after(settings, reply) == Progress::<
            TxOutRunView<K, M>,
            Result<TxOutResponseView<M>, E>,
        >::Done(Err(error)),
    ensures
        (run.asks() == TxOutQuery::<K, M>::NumBlocks && reply == TxOutReply::<
            K,
            M,
            E,
        >::NumBlocks(Err(error))) || (run.asks() == TxOutQuery::<K, M>::NumTxos && reply
            == TxOutReply::<K, M, E>::NumTxos(Err(error))),
{
}

/// A response says what its fields hold.
pub proof fn law_response_says_its_fields<M>(response: TxOutResponse<M>)
    ensures
        response@.num_blocks == response.num_blocks,
        response@.global_txo_count == response.global_txo_count,
        response@.results == response.results@,
{
}

/// What the ledger, the watcher and the decoding of keys hold: the two counts, for each message the
/// key that it carries, for each key the index of its output, for each index of an output the index
/// of its block, and the timestamp with its code that is to be reported for a block.
#[verifier::reject_recursive_types(K)]
#[verifier::reject_recursive_types(M)]
pub struct TxOutFacts<K, M, E> {
    pub num_blocks: Result<u64, E>,
    pub num_txos: Result<u64, E>,
    pub keys: spec_fn(M) -> KeyReply<K, M>,
    pub outputs: spec_fn(K) -> IndexReply<E>,
    pub blocks: spec_fn(u64) -> Result<u64, E>,
    pub stamps: spec_fn(u64) -> (u64, u32),
}

/// Whether a run passes through `runs`, gets the reply at the same place in each of them, and ends
/// with `result` on the last one, where every reply tells the facts about what was asked.
spec fn is_told<K, M, E>(
    settings: WatcherSettings,
    facts: TxOutFacts<K, M, E>,
    runs: Seq<TxOutRunView<K, M>>,
    replies: Seq<TxOutReply<K, M, E>>,
    result: Result<TxOutResponseView<M>, E>,
) -> bool {
    &&& runs.len() == replies.len()
    &&& runs.len() > 0
    &&& forall|k: int|
        0 <= k < replies.len() - 1 ==> runs[k].after(settings, #[trigger] replies[k]) == Progress::<
            TxOutRunView<K, M>,
            Result<TxOutResponseView<M>, E>,
        >::Pending(runs[k + 1])
    &&& runs.last().after(settings, replies.last()) == Progress::<
        TxOutRunView<K, M>,
        Result<TxOutResponseView<M>, E>,
    >::Done(result)
    &&& forall|k: int|
        0 <= k < replies.len() ==> match runs[k].asks() {
            TxOutQuery::NumBlocks => #[trigger] replies[k] == TxOutReply::<K, M, E>::NumBlocks(
                facts.num_blocks,
            ),
            TxOutQuery::NumTxos => replies[k] == TxOutReply::<K, M, E>::NumTxos(facts.num_txos),
            TxOutQuery::Key(message) => replies[k] == TxOutReply::<K, M, E>::Key(
                (facts.keys)(*message),
            ),
            TxOutQuery::TxOutIndex(key) => replies[k] == TxOutReply::<K, M, E>::TxOutIndex(
                (facts.outputs)(*key),
            ),
            TxOutQuery::BlockIndex(index) => replies[k] == TxOutReply::<K, M, E>::BlockIndex(
                (facts.blocks)(index),
            ),
            TxOutQuery::Timestamp { block_index, .. } => replies[k] matches TxOutReply::Timestamp(
                poll,
            ) && (poll.reply matches WatcherReply::Answer { timestamp, code, code_number } ==> {
                &&& code == TimestampResultCode::TimestampFound ==> (facts.stamps)(block_index) == (
                    timestamp,
                    code_number,
                )
                &&& code == TimestampResultCode::BlockIndexOutOfBounds ==> (facts.stamps)(
                    block_index,
                ) == (u64::MAX, code_number)
            }),
        }
}

/// The result without anything to tell beyond its code.
spec fn blank<M>(message: M, result_code: TxOutResultCode) -> TxOutResult<M> {
    TxOutResult {
        tx_out_pubkey: message,
        result_code,
        tx_out_global_index: 0,
        block_index: 0,
        timestamp: 0,
        timestamp_result_code: 0,
    }
}

/// The result for the requested message by the facts.
spec fn factual<K, M, E>(facts: TxOutFacts<K, M, E>, requested: M) -> TxOutResult<M> {
    match (facts.keys)(requested) {
        KeyReply::Malformed => blank(requested, TxOutResultCode::MalformedRequest),
        KeyReply::Valid(decoded) => match (facts.outputs)(decoded.key) {
            IndexReply::Failed(_) => blank(requested, TxOutResultCode::DatabaseError),
            IndexReply::NotFound => blank(decoded.encoded, TxOutResultCode::NotFound),
            IndexReply::Index(i) => match (facts.blocks)(i) {
                Err(_) => blank(requested, TxOutResultCode::DatabaseError),
                Ok(b) => TxOutResult {
                    tx_out_pubkey: decoded.encoded,
                    result_code: TxOutResultCode::Found,
                    tx_out_global_index: i,
                    block_index: b,
                    timestamp: (facts.stamps)(b).0,
                    timestamp_result_code: (facts.stamps)(b).1,
                },
            },
        },
    }
}

/// The results for all `requested` messages by the facts.
spec fn all_factual<K, M, E>(facts: TxOutFacts<K, M, E>, requested: Seq<M>) -> Seq<TxOutResult<M>> {
    requested.map_values(|message: M| factual(facts, message))
}

/// Whether what has been gathered for the requested message so far is what the facts say.
spec fn has_gathered<K, M, E>(facts: TxOutFacts<K, M, E>, stage: TxOutStage<K, M>) -> bool {
    match stage {
        TxOutStage::Key { .. } => true,
        TxOutStage::Lookup { requested, lookup } => (facts.keys)(requested) matches KeyReply::Valid(
            decoded,
        ) && match lookup {
            TxOutLookup::Index { key, encoded } => key == decoded.key && encoded == decoded.encoded,
            TxOutLookup::BlockIndex { encoded, tx_out_index } => encoded == decoded.encoded
                && (facts.outputs)(decoded.key) == IndexReply::<E>::Index(tx_out_index),
            TxOutLookup::Timestamp { encoded, tx_out_index, block_index, .. } => encoded
                == decoded.encoded && (facts.outputs)(decoded.key) == IndexReply::<E>::Index(
                tx_out_index,
            ) && (facts.blocks)(tx_out_index) == Ok::<u64, E>(block_index),
        },
        _ => false,
    }
}

/// The requested message that a stage is about.
spec fn message_of<K, M>(stage: TxOutStage<K, M>) -> M {
    match stage {
        TxOutStage::Key { requested } => requested,
        TxOutStage::Lookup { requested, .. } => requested,
        _ => arbitrary(),
    }
}

proof fn lemma_rest_is_factual<K, M, E>(
    settings: WatcherSettings,
    facts: TxOutFacts<K, M, E>,
    runs: Seq<TxOutRunView<K, M>>,
    replies: Seq<TxOutReply<K, M, E>>,
    result: Result<TxOutResponseView<M>, E>,
    k: int,
)
    requires
        is_told(settings, facts, runs, replies, result),
        0 <= k < runs.len(),
        has_gathered(facts, runs[k].stage),
    ensures
        result == Ok::<TxOutResponseView<M>, E>(
            TxOutResponseView {
                results: runs[k].response.results + all_factual(
                    facts,
                    seq![message_of(runs[k].stage)] + runs[k].remaining,
                ),
                ..runs[k].response
            },
        ),
    decreases runs.len() - k,
{
    let run = runs[k];
    let message = message_of(run.stage);
    let reply = replies[k];
    let all = all_factual(facts, seq![message] + run.remaining);
    let response = run.response.with(factual(facts, message));
    match run.after(settings, reply) {
        Progress::Pending(next) => {
            assert(k < runs.len() - 1);
            assert(next == runs[k + 1]);
            lemma_rest_is_factual(settings, facts, runs, replies, result, k + 1);
            if next.remaining != run.remaining || next.response != run.response {
                assert(run.remaining.len() > 0);
                assert(next.response == response);
                assert(seq![run.remaining[0]] + run.remaining.drop_first() =~= run.remaining);
                assert(response.results + all_factual(facts, run.remaining) =~= run.response.results
                    + all);
            } else {
                assert(message_of(next.stage) == message);
            }
        },
        Progress::Done(_) => {
            assert(k == runs.len() - 1);
            assert(response.results =~= run.response.results + all);
        },
    }
}

/// A response tells what the ledger and the watcher hold. If every reply that a run gets states the
/// facts about what the run asked for, the run ends with the ledger's error if one of the counts is
/// an error, and else with the two counts and one result for each requested message, in the order of
/// the request: that the message carries no key, that the ledger does not hold the output with the
/// key or cannot be read, or the index of the output with the key, the index of the block with that
/// output and the timestamp of that block.
pub proof fn law_response_tells_the_facts<K, M, E>(
    settings: WatcherSettings,
    request: TxOutRequest<M>,
    facts: TxOutFacts<K, M, E>,
    runs: Seq<TxOutRunView<K, M>>,
    replies: Seq<TxOutReply<K, M, E>>,
    result: Result<TxOutResponseView<M>, E>,
)
    requires
        runs.len() == replies.len(),
        runs.len() > 0,
        runs[0] == TxOutRunView::<K, M>::start(request.tx_out_pubkeys@),
        forall|k: int|
            0 <= k < replies.len() - 1 ==> runs[k].after(settings, #[trigger] replies[k])
                == Progress::<TxOutRunView<K, M>, Result<TxOutResponseView<M>, E>>::Pending(
                runs[k + 1],
            ),
        runs.last().after(settings, replies.last()) == Progress::<
            TxOutRunView<K, M>,
            Result<TxOutResponseView<M>, E>,
        >::Done(result),
        forall|k: int|
            0 <= k < replies.len() ==> match runs[k].asks() {
                TxOutQuery::NumBlocks => #[trigger] replies[k] == TxOutReply::<K, M, E>::NumBlocks(
                    facts.num_blocks,
                ),
                TxOutQuery::NumTxos => replies[k] == TxOutReply::<K, M, E>::NumTxos(facts.num_txos),
                TxOutQuery::Key(message) => replies[k] == TxOutReply::<K, M, E>::Key(
                    (facts.keys)(*message),
                ),
                TxOutQuery::TxOutIndex(key) => replies[k] == TxOutReply::<K, M, E>::TxOutIndex(
                    (facts.outputs)(*key),
                ),
                TxOutQuery::BlockIndex(index) => replies[k] == TxOutReply::<K, M, E>::BlockIndex(
                    (facts.blocks)(index),
                ),
                TxOutQuery::Timestamp { block_index, .. } => replies[k] matches
                    TxOutReply::Timestamp(poll) && (poll.reply matches WatcherReply::Answer {
                    timestamp,
                    code,
                    code_number,
                } ==> {
                    &&& code == TimestampResultCode::TimestampFound ==> (facts.stamps)(block_index)
                        == (timestamp, code_number)
                    &&& code == TimestampResultCode::BlockIndexOutOfBounds ==> (facts.stamps)(
                        block_index,
                    ) == (u64::MAX, code_number)
                }),
            },
    ensures
        match (facts.num_blocks, facts.num_txos) {
            (Err(error), _) => result == Err::<TxOutResponseView<M>, E>(error),
            (Ok(_), Err(error)) => result == Err::<TxOutResponseView<M>, E>(error),
            (Ok(num_blocks), Ok(num_txos)) => result matches Ok(response) && {
                &&& response.num_blocks == num_blocks
                &&& response.global_txo_count == num_txos
                &&& response.results.len() == request.tx_out_pubkeys@.len()
                &&& forall|i: int|
                    #![trigger response.results[i]]
                    0 <= i < response.results.len() ==> {
                        let requested = request.tx_out_pubkeys@[i];
                        let told = response.results[i];
                        let untold = told.tx_out_global_index == 0 && told.block_index == 0
                            && told.timestamp == 0 && told.timestamp_result_code == 0;
                        match (facts.keys)(requested) {
                            KeyReply::Malformed => told.tx_out_pubkey == requested
                                && told.result_code == TxOutResultCode::MalformedRequest && untold,
                            KeyReply::Valid(decoded) => match (facts.outputs)(decoded.key) {
                                IndexReply::Failed(_) => told.tx_out_pubkey == requested
                                    && told.result_code == TxOutResultCode::DatabaseError && untold,
                                IndexReply::NotFound => told.tx_out_pubkey == decoded.encoded
                                    && told.result_code == TxOutResultCode::NotFound && untold,
                                IndexReply::Index(x) => match (facts.blocks)(x) {
                                    Err(_) => told.tx_out_pubkey == requested && told.result_code
                                        == TxOutResultCode::DatabaseError && untold,
                                    Ok(b) => told.tx_out_pubkey == decoded.encoded
                                        && told.result_code == TxOutResultCode::Found
                                        && told.tx_out_global_index == x && told.block_index == b
                                        && (facts.stamps)(b) == (
                                        told.timestamp,
                                        told.timestamp_result_code,
                                    ),
                                },
                            },
                        }
                    }
            },
        },
{
    let keys = request.tx_out_pubkeys@;
    assert(is_told(settings, facts, runs, replies, result));
    assert(replies[0] == TxOutReply::<K, M, E>::NumBlocks(facts.num_blocks));
    if facts.num_blocks is Ok {
        assert(runs.len() > 1);
        assert(replies[1] == TxOutReply::<K, M, E>::NumTxos(facts.num_txos));
        if facts.num_txos is Ok {
            if keys.len() == 0 {
                assert(runs.len() == 2);
            } else {
                assert(runs.len() > 2);
                lemma_rest_is_factual(settings, facts, runs, replies, result, 2);
                assert(seq![keys[0]] + keys.drop_first() =~= keys);
                assert(result->Ok_0.results =~= all_factual(facts, keys));
            }
        } else {
            assert(runs.len() == 2);
        }
    } else {
        assert(runs.len() == 1);
    }
}

/// A run ends. If every reply is one to the question asked and every round of polling settles the
/// timestamp, it passes through no more than two states and four for each requested message.
pub proof fn law_run_ends<K, M, E>(
    settings: WatcherSettings,
    request: TxOutRequest<M>,
    runs: Seq<TxOutRunView<K, M>>,
    replies: Seq<TxOutReply<K, M, E>>,
)
    requires
        runs.len() == replies.len(),
        runs.len() > 0,
        runs[0] == TxOutRunView::<K, M>::start(request.tx_out_pubkeys@),
        forall|k: int|
            0 <= k < replies.len() - 1 ==> runs[k].after(settings, #[trigger] replies[k])
                == Progress::<TxOutRunView<K, M>, Result<TxOutResponseView<M>, E>>::Pending(
                runs[k + 1],
            ),
        forall|k: int|
            0 <= k < replies.len() ==> match runs[k].asks() {
                TxOutQuery::NumBlocks => #[trigger] replies[k] is NumBlocks,
                TxOutQuery::NumTxos => replies[k] is NumTxos,
                TxOutQuery::Key(_) => replies[k] is Key,
                TxOutQuery::TxOutIndex(_) => replies[k] is TxOutIndex,
                TxOutQuery::BlockIndex(_) => replies[k] is BlockIndex,
                TxOutQuery::Timestamp { .. } => replies[k] matches TxOutReply::Timestamp(poll) && (
                poll.reply matches WatcherReply::Answer { code, .. } && (code
                    == TimestampResultCode::TimestampFound || code
                    == TimestampResultCode::BlockIndexOutOfBounds)),
            },
    ensures
        runs.len() <= 2 + 4 * request.tx_out_pubkeys@.len(),
{
    lemma_run_ends(settings, runs, replies, 0);
}

proof fn lemma_run_ends<K, M, E>(
    settings: WatcherSettings,
    runs: Seq<TxOutRunView<K, M>>,
    replies: Seq<TxOutReply<K, M, E>>,
    k: int,
)
    requires
        runs.len() == replies.len(),
        0 <= k < runs.len(),
        forall|k: int|
            0 <= k < replies.len() - 1 ==> runs[k].after(settings, #[trigger] replies[k])
                == Progress::<TxOutRunView<K, M>, Result<TxOutResponseView<M>, E>>::Pending(
                runs[k + 1],
            ),
        forall|k: int|
            0 <= k < replies.len() ==> match runs[k].asks() {
                TxOutQuery::NumBlocks => #[trigger] replies[k] is NumBlocks,
                TxOutQuery::NumTxos => replies[k] is NumTxos,
                TxOutQuery::Key(_) => replies[k] is Key,
                TxOutQuery::TxOutIndex(_) => replies[k] is TxOutIndex,
                TxOutQuery::BlockIndex(_) => replies[k] is BlockIndex,
                TxOutQuery::Timestamp { .. } => replies[k] matches TxOutReply::Timestamp(poll) && (
                poll.reply matches WatcherReply::Answer { code, .. } && (code
                    == TimestampResultCode::TimestampFound || code
                    == TimestampResultCode::BlockIndexOutOfBounds)),
            },
    ensures
        runs.len() - k <= runs[k].replies_left(),
    decreases runs.len() - k,
{
    if k < runs.len() - 1 {
        lemma_run_ends(settings, runs, replies, k + 1);
        assert(runs[k].asks().is_answered_by(replies[k]));
        crate::tx_out_sessions::law_only_the_watcher_holds_a_run_up(settings, runs[k], replies[k]);
    }
}

} // verus!
