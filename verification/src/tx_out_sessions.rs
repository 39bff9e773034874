//! What comes of a request for transaction outputs as a whole.
//!
//! The service works on a request reply by reply. Here the replies of one request, from the first
//! to the last, are taken together: which conversations there are, and what each ends with.
use vstd::prelude::*;

use crate::block_sessions::BlockOutcome;
use crate::progress::Progress;
use crate::tx_out::{DecodedKey, TxOutResponseView, TxOutResult, TxOutResultCode};
use crate::tx_out_service::{
    IndexReply, KeyReply, TxOutLookup, TxOutQuery, TxOutReply, TxOutRunView, TxOutStage,
};
use crate::watcher::{Poll, WatcherSettings};

verus! {

impl<K, M> TxOutLookup<K, M> {
    /// Whether the search, from here on, gets exactly `replies` and ends with `result`: each reply
    /// is to the question that is open at that point, and the last one ends the search.
    pub open spec fn concludes<E>(
        self,
        settings: WatcherSettings,
        replies: Seq<TxOutReply<K, M, E>>,
        result: Result<TxOutResult<M>, E>,
    ) -> bool
        decreases replies.len(),
    {
        &&& replies.len() > 0
        &&& self.asks().is_answered_by(replies[0])
        &&& match self.after(settings, replies[0]) {
            Progress::Pending(next) => next.concludes(settings, replies.drop_first(), result),
            Progress::Done(searched) => replies.len() == 1 && searched == result,
        }
    }
}

impl<K, M> TxOutRunView<K, M> {
    /// Whether the run, from here on, gets exactly `replies` and ends with `result`: each reply is
    /// to the question that is open at that point, and the last one ends the run.
    pub open spec fn concludes<E>(
        self,
        settings: WatcherSettings,
        replies: Seq<TxOutReply<K, M, E>>,
        result: Result<TxOutResponseView<M>, E>,
    ) -> bool
        decreases replies.len(),
    {
        &&& replies.len() > 0
        &&& self.asks().is_answered_by(replies[0])
        &&& match self.after(settings, replies[0]) {
            Progress::Pending(next) => next.concludes(settings, replies.drop_first(), result),
            Progress::Done(answer) => replies.len() == 1 && answer == result,
        }
    }
}

/// Whether a run that has come as far as `progress` gets exactly `replies` from there on and ends
/// with `result`.
pub open spec fn leads_to<K, M, E>(
    progress: Progress<TxOutRunView<K, M>, Result<TxOutResponseView<M>, E>>,
    settings: WatcherSettings,
    replies: Seq<TxOutReply<K, M, E>>,
    result: Result<TxOutResponseView<M>, E>,
) -> bool {
    match progress {
        Progress::Pending(run) => run.concludes(settings, replies, result),
        Progress::Done(answer) => replies.len() == 0 && answer == result,
    }
}

/// The replies that a search for a timestamp gets.
pub open spec fn timestamp_replies<K, M, E>(polls: Seq<Poll>) -> Seq<TxOutReply<K, M, E>> {
    polls.map_values(|poll: Poll| TxOutReply::<K, M, E>::Timestamp(poll))
}

/// What the ledger and the watcher have to say about one decoded public key.
pub enum TxOutOutcome<E> {
    /// The ledger does not hold the transaction output.
    NotFound,
    /// The ledger does not say whether it holds the transaction output.
    NoIndex(E),
    /// The ledger gives the index of the transaction output, but not that of its block.
    NoBlockIndex { tx_out_index: u64, error: E },
    /// The ledger gives both, and the timestamp is settled in as many rounds as there are `polls`.
    Found { tx_out_index: u64, block_index: u64, polls: Seq<Poll> },
}

impl<E> TxOutOutcome<E> {
    /// Whether the polling, if it comes to that, ends when the timestamp is settled.
    pub open spec fn is_valid(self) -> bool {
        self matches TxOutOutcome::Found { polls, .. } ==> crate::watcher::is_settled_by(polls)
    }

    /// The replies that the search gets.
    pub open spec fn replies<K, M>(self) -> Seq<TxOutReply<K, M, E>> {
        match self {
            TxOutOutcome::NotFound => seq![TxOutReply::TxOutIndex(IndexReply::NotFound)],
            TxOutOutcome::NoIndex(error) => seq![TxOutReply::TxOutIndex(IndexReply::Failed(error))],
            TxOutOutcome::NoBlockIndex { tx_out_index, error } => seq![
                TxOutReply::TxOutIndex(IndexReply::Index(tx_out_index)),
                TxOutReply::BlockIndex(Err(error)),
            ],
            TxOutOutcome::Found { tx_out_index, block_index, polls } => seq![
                TxOutReply::TxOutIndex(IndexReply::Index(tx_out_index)),
                TxOutReply::BlockIndex(Ok(block_index)),
            ] + timestamp_replies(polls),
        }
    }

    /// What the search for the public key that `encoded` carries ends with.
    pub open spec fn result<M>(self, encoded: M) -> Result<TxOutResult<M>, E> {
        match self {
            TxOutOutcome::NotFound => Ok(TxOutResult::bare(encoded, TxOutResultCode::NotFound)),
            TxOutOutcome::NoIndex(error) => Err(error),
            TxOutOutcome::NoBlockIndex { error, .. } => Err(error),
            TxOutOutcome::Found { tx_out_index, block_index, polls } => Ok(
                TxOutResult::found(
                    encoded,
                    tx_out_index,
                    block_index,
                    crate::watcher::settled_timestamp(polls),
                ),
            ),
        }
    }
}

/// A lookup that only misses its timestamp ends once the polling does.
proof fn lemma_polling_concludes<K, M, E>(
    settings: WatcherSettings,
    lookup: TxOutLookup<K, M>,
    polls: Seq<Poll>,
)
    requires
        lookup is Timestamp,
        crate::watcher::is_settled_by(polls),
    ensures
        lookup.concludes(
            settings,
            timestamp_replies::<K, M, E>(polls),
            Ok(
                TxOutResult::found(
                    lookup->Timestamp_encoded,
                    lookup->Timestamp_tx_out_index,
                    lookup->Timestamp_block_index,
                    crate::watcher::settled_timestamp(polls),
                ),
            ),
        ),
    decreases polls.len(),
{
    let replies = timestamp_replies::<K, M, E>(polls);
    assert(replies[0] == TxOutReply::<K, M, E>::Timestamp(polls[0]));
    if polls.len() > 1 {
        assert(polls[0].reply.settles() is None);
        let rest = polls.drop_first();
        assert(rest.last() == polls.last());
        assert forall|i: int| 0 <= i < rest.len() - 1 implies (
        #[trigger] rest[i]).reply.settles() is None by {
            assert(rest[i] == polls[i + 1]);
        }
        assert(replies.drop_first() =~= timestamp_replies::<K, M, E>(rest));
        lemma_polling_concludes::<K, M, E>(
            settings,
            lookup.after(settings, replies[0])->Pending_0,
            rest,
        );
    }
}

/// The search for a transaction output gets the replies of the outcome and ends with its result,
/// whatever the ledger and the watcher have to say.
pub proof fn law_lookup_concludes<K, M, E>(
    settings: WatcherSettings,
    decoded: DecodedKey<K, M>,
    outcome: TxOutOutcome<E>,
)
    requires
        outcome.is_valid(),
    ensures
        (TxOutLookup::Index { key: decoded.key, encoded: decoded.encoded }).concludes(
            settings,
            outcome.replies::<K, M>(),
            outcome.result(decoded.encoded),
        ),
{
    let encoded = decoded.encoded;
    let replies = outcome.replies::<K, M>();
    let result = outcome.result(encoded);
    match outcome {
        TxOutOutcome::NotFound => {},
        TxOutOutcome::NoIndex(_) => {},
        TxOutOutcome::NoBlockIndex { tx_out_index, .. } => {
            let next = TxOutLookup::<K, M>::BlockIndex { encoded, tx_out_index };
            assert(next.concludes(settings, replies.drop_first(), result));
        },
        TxOutOutcome::Found { tx_out_index, block_index, polls } => {
            let next = TxOutLookup::<K, M>::BlockIndex { encoded, tx_out_index };
            let last = TxOutLookup::<K, M>::Timestamp {
                encoded,
                tx_out_index,
                block_index,
                wait: None,
            };
            let rest = replies.drop_first();
            assert(rest.drop_first() =~= timestamp_replies::<K, M, E>(polls));
            lemma_polling_concludes::<K, M, E>(settings, last, polls);
            assert(next.concludes(settings, rest, result));
        },
    }
}

/// The replies that a lookup which only misses its timestamp gets until it ends are rounds of
/// polling, of which the last settles the timestamp.
proof fn lemma_polling_conversation<K, M, E>(
    settings: WatcherSettings,
    lookup: TxOutLookup<K, M>,
    replies: Seq<TxOutReply<K, M, E>>,
    result: Result<TxOutResult<M>, E>,
) -> (polls: Seq<Poll>)
    requires
        lookup is Timestamp,
        lookup.concludes(settings, replies, result),
    ensures
        crate::watcher::is_settled_by(polls),
        replies == timestamp_replies::<K, M, E>(polls),
        result == Ok::<TxOutResult<M>, E>(
            TxOutResult::found(
                lookup->Timestamp_encoded,
                lookup->Timestamp_tx_out_index,
                lookup->Timestamp_block_index,
                crate::watcher::settled_timestamp(polls),
            ),
        ),
    decreases replies.len(),
{
    let poll = replies[0]->Timestamp_0;
    match lookup.after(settings, replies[0]) {
        Progress::Pending(next) => {
            let rest = lemma_polling_conversation(settings, next, replies.drop_first(), result);
            let polls = seq![poll] + rest;
            assert(polls.last() == rest.last());
            assert forall|i: int| 0 <= i < polls.len() - 1 implies (
            #[trigger] polls[i]).reply.settles() is None by {
                if i > 0 {
                    assert(polls[i] == rest[i - 1]);
                }
            }
            assert(replies =~= timestamp_replies::<K, M, E>(polls)) by {
                assert forall|i: int| 0 <= i < replies.len() implies replies[i]
                    == timestamp_replies::<K, M, E>(polls)[i] by {
                    if i > 0 {
                        assert(replies[i] == replies.drop_first()[i - 1]);
                    }
                }
            }
            polls
        },
        Progress::Done(_) => {
            let polls = seq![poll];
            assert(replies =~= timestamp_replies::<K, M, E>(polls));
            polls
        },
    }
}

/// The outcome behind a search that ended.
proof fn lemma_lookup_conversation<K, M, E>(
    settings: WatcherSettings,
    decoded: DecodedKey<K, M>,
    replies: Seq<TxOutReply<K, M, E>>,
    result: Result<TxOutResult<M>, E>,
) -> (outcome: TxOutOutcome<E>)
    requires
        (TxOutLookup::Index { key: decoded.key, encoded: decoded.encoded }).concludes(
            settings,
            replies,
            result,
        ),
    ensures
        outcome.is_valid(),
        replies == outcome.replies::<K, M>(),
        result == outcome.result(decoded.encoded),
{
    let encoded = decoded.encoded;
    match replies[0]->TxOutIndex_0 {
        IndexReply::NotFound => {
            let outcome = TxOutOutcome::<E>::NotFound;
            assert(replies =~= outcome.replies::<K, M>());
            outcome
        },
        IndexReply::Failed(error) => {
            let outcome = TxOutOutcome::NoIndex(error);
            assert(replies =~= outcome.replies::<K, M>());
            outcome
        },
        IndexReply::Index(tx_out_index) => {
            let next = TxOutLookup::<K, M>::BlockIndex { encoded, tx_out_index };
            let rest = replies.drop_first();
            assert(next.concludes(settings, rest, result));
            match rest[0]->BlockIndex_0 {
                Err(error) => {
                    let outcome = TxOutOutcome::NoBlockIndex { tx_out_index, error };
                    assert(replies =~= outcome.replies::<K, M>());
                    outcome
                },
                Ok(block_index) => {
                    let polled = rest.drop_first();
                    let last = TxOutLookup::<K, M>::Timestamp {
                        encoded,
                        tx_out_index,
                        block_index,
                        wait: None,
                    };
                    let polls = lemma_polling_conversation(settings, last, polled, result);
                    let outcome = TxOutOutcome::<E>::Found { tx_out_index, block_index, polls };
                    assert(replies =~= outcome.replies::<K, M>()) by {
                        assert(replies[1] == rest[0]);
                        assert forall|i: int| 2 <= i < replies.len() implies replies[i]
                            == outcome.replies::<K, M>()[i] by {
                            assert(replies[i] == polled[i - 2]);
                        }
                    }
                    outcome
                },
            }
        },
    }
}

/// There are no other searches: every search for a transaction output that ends is one of an
/// outcome, with its replies and its result.
pub proof fn law_lookup_conversations<K, M, E>(
    settings: WatcherSettings,
    decoded: DecodedKey<K, M>,
    replies: Seq<TxOutReply<K, M, E>>,
    result: Result<TxOutResult<M>, E>,
)
    requires
        (TxOutLookup::Index { key: decoded.key, encoded: decoded.encoded }).concludes(
            settings,
            replies,
            result,
        ),
    ensures
        exists|outcome: TxOutOutcome<E>|
            #![trigger outcome.is_valid()]
            outcome.is_valid() && replies == outcome.replies::<K, M>() && result == outcome.result(
                decoded.encoded,
            ),
{
    let outcome = lemma_lookup_conversation(settings, decoded, replies, result);
    assert(outcome.is_valid());
}

/// What there is to say about one public key of a request.
pub enum KeyOutcome<K, M, E> {
    /// The message carries no public key.
    Malformed,
    /// The message carries one, and `outcome` is what the ledger and the watcher have to say.
    Decoded { decoded: DecodedKey<K, M>, outcome: TxOutOutcome<E> },
}

impl<K, M, E> KeyOutcome<K, M, E> {
    /// Whether the polling, if it comes to that, ends when the timestamp is settled.
    pub open spec fn is_valid(self) -> bool {
        self matches KeyOutcome::Decoded { outcome, .. } ==> outcome.is_valid()
    }

    /// The replies that the run gets while it is occupied with the public key.
    pub open spec fn replies(self) -> Seq<TxOutReply<K, M, E>> {
        match self {
            KeyOutcome::Malformed => seq![TxOutReply::Key(KeyReply::Malformed)],
            KeyOutcome::Decoded { decoded, outcome } => seq![
                TxOutReply::<K, M, E>::Key(KeyReply::Valid(decoded)),
            ] + outcome.replies::<K, M>(),
        }
    }

    /// The result for the public key, which the request has as `requested`.
    pub open spec fn result(self, requested: M) -> TxOutResult<M> {
        match self {
            KeyOutcome::Malformed => TxOutResult::bare(
                requested,
                TxOutResultCode::MalformedRequest,
            ),
            KeyOutcome::Decoded { decoded, outcome } => match outcome.result(decoded.encoded) {
                Ok(result) => result,
                Err(_) => TxOutResult::bare(requested, TxOutResultCode::DatabaseError),
            },
        }
    }
}

/// What the ledger and the watcher have to say about one request for transaction outputs.
pub enum TxOutSession<K, M, E> {
    /// The ledger does not give its number of blocks.
    NoBlockCount(E),
    /// The ledger gives its number of blocks, but not that of transaction outputs.
    NoTxoCount { num_blocks: u64, error: E },
    /// The ledger gives both; `outcomes` has an outcome for each requested public key.
    Answered { num_blocks: u64, global_txo_count: u64, outcomes: Seq<KeyOutcome<K, M, E>> },
}

/// The replies that a run gets for several public keys, one key after the other.
pub open spec fn all_replies<K, M, E>(outcomes: Seq<KeyOutcome<K, M, E>>) -> Seq<TxOutReply<K, M, E>>
    decreases outcomes.len(),
{
    if outcomes.len() == 0 {
        Seq::empty()
    } else {
        outcomes[0].replies() + all_replies(outcomes.drop_first())
    }
}

/// The results for `keys`: one for each, at the same place.
pub open spec fn all_results<K, M, E>(
    keys: Seq<M>,
    outcomes: Seq<KeyOutcome<K, M, E>>,
) -> Seq<TxOutResult<M>> {
    Seq::new(keys.len(), |i: int| outcomes[i].result(keys[i]))
}

/// Whether all `outcomes` are valid.
pub open spec fn all_valid<K, M, E>(outcomes: Seq<KeyOutcome<K, M, E>>) -> bool {
    forall|i: int| 0 <= i < outcomes.len() ==> (#[trigger] outcomes[i]).is_valid()
}

impl<K, M, E> TxOutSession<K, M, E> {
    /// Whether the session is one of a request for `keys`.
    pub open spec fn is_valid(self, keys: Seq<M>) -> bool {
        self matches TxOutSession::Answered { outcomes, .. } ==> outcomes.len() == keys.len()
            && all_valid(outcomes)
    }

    /// The replies that the run gets.
    pub open spec fn replies(self) -> Seq<TxOutReply<K, M, E>> {
        match self {
            TxOutSession::NoBlockCount(error) => seq![TxOutReply::NumBlocks(Err(error))],
            TxOutSession::NoTxoCount { num_blocks, error } => seq![
                TxOutReply::NumBlocks(Ok(num_blocks)),
                TxOutReply::NumTxos(Err(error)),
            ],
            TxOutSession::Answered { num_blocks, global_txo_count, outcomes } => seq![
                TxOutReply::NumBlocks(Ok(num_blocks)),
                TxOutReply::NumTxos(Ok(global_txo_count)),
            ] + all_replies(outcomes),
        }
    }

    /// What the run for `keys` ends with.
    pub open spec fn result(self, keys: Seq<M>) -> Result<TxOutResponseView<M>, E> {
        match self {
            TxOutSession::NoBlockCount(error) => Err(error),
            TxOutSession::NoTxoCount { error, .. } => Err(error),
            TxOutSession::Answered { num_blocks, global_txo_count, outcomes } => Ok(
                TxOutResponseView {
                    num_blocks,
                    global_txo_count,
                    results: all_results(keys, outcomes),
                },
            ),
        }
    }
}

/// A run goes on after the search for a transaction output as if the search had been a single
/// step.
proof fn lemma_run_past_lookup<K, M, E>(
    settings: WatcherSettings,
    run: TxOutRunView<K, M>,
    replies: Seq<TxOutReply<K, M, E>>,
    searched: Result<TxOutResult<M>, E>,
    later: Seq<TxOutReply<K, M, E>>,
    result: Result<TxOutResponseView<M>, E>,
)
    requires
        run.stage is Lookup,
        run.stage->lookup.concludes(settings, replies, searched),
        leads_to(
            TxOutRunView::resume(
                run.remaining,
                run.response.with(
                    crate::tx_out_service::reported(run.stage->Lookup_requested, searched),
                ),
            ),
            settings,
            later,
            result,
        ),
    ensures
        run.concludes(settings, replies + later, result),
    decreases replies.len(),
{
    let lookup = run.stage->lookup;
    let requested = run.stage->Lookup_requested;
    let all = replies + later;
    assert(all[0] == replies[0]);
    assert(all.drop_first() =~= replies.drop_first() + later);
    match lookup.after(settings, replies[0]) {
        Progress::Pending(next) => {
            lemma_run_past_lookup(
                settings,
                TxOutRunView { stage: TxOutStage::Lookup { requested, lookup: next }, ..run },
                replies.drop_first(),
                searched,
                later,
                result,
            );
        },
        Progress::Done(_) => {
            assert(replies.drop_first() + later =~= later);
        },
    }
}

/// From where the first of `remaining` is to be decoded, a run gets the replies of the outcomes
/// and ends with their results added to its response.
proof fn lemma_rest_concludes<K, M, E>(
    settings: WatcherSettings,
    remaining: Seq<M>,
    response: TxOutResponseView<M>,
    outcomes: Seq<KeyOutcome<K, M, E>>,
)
    requires
        outcomes.len() == remaining.len(),
        all_valid(outcomes),
    ensures
        leads_to(
            TxOutRunView::resume(remaining, response),
            settings,
            all_replies(outcomes),
            Ok(
                TxOutResponseView {
                    results: response.results + all_results(remaining, outcomes),
                    ..response
                },
            ),
        ),
    decreases outcomes.len(),
{
    let whole = TxOutResponseView {
        results: response.results + all_results(remaining, outcomes),
        ..response
    };
    if outcomes.len() == 0 {
        assert(whole.results =~= response.results);
    } else {
        let requested = remaining[0];
        let next = response.with(outcomes[0].result(requested));
        let rest = outcomes.drop_first();
        let later = all_replies(rest);
        assert forall|i: int| 0 <= i < rest.len() implies (#[trigger] rest[i]).is_valid() by {
            assert(rest[i] == outcomes[i + 1]);
        }
        lemma_rest_concludes(settings, remaining.drop_first(), next, rest);
        assert(next.results + all_results(remaining.drop_first(), rest) =~= whole.results);
        let run = TxOutRunView::<K, M>::resume::<E>(remaining, response)->Pending_0;
        let all = outcomes[0].replies() + later;
        match outcomes[0] {
            KeyOutcome::Malformed => {
                assert(all.drop_first() =~= later);
                assert(run.concludes(settings, all, Ok(whole)));
            },
            KeyOutcome::Decoded { decoded, outcome } => {
                let lookup = TxOutLookup::Index { key: decoded.key, encoded: decoded.encoded };
                let searching = TxOutRunView {
                    stage: TxOutStage::Lookup { requested, lookup },
                    ..run
                };
                law_lookup_concludes(settings, decoded, outcome);
                lemma_run_past_lookup(
                    settings,
                    searching,
                    outcome.replies::<K, M>(),
                    outcome.result(decoded.encoded),
                    later,
                    Ok(whole),
                );
                assert(all[0] == TxOutReply::<K, M, E>::Key(KeyReply::Valid(decoded)));
                assert(all.drop_first() =~= outcome.replies::<K, M>() + later);
                assert(run.after(settings, all[0]) == Progress::<
                    TxOutRunView<K, M>,
                    Result<TxOutResponseView<M>, E>,
                >::Pending(searching));
                assert(run.concludes(settings, all, Ok(whole)));
            },
        }
    }
}

/// A request gets the replies of the session and ends with its result, whatever the ledger and the
/// watcher have to say: with the ledger's own error if one of the two counts fails, and else with
/// both counts and one result for each public key.
pub proof fn law_run_concludes<K, M, E>(
    settings: WatcherSettings,
    keys: Seq<M>,
    session: TxOutSession<K, M, E>,
)
    requires
        session.is_valid(keys),
    ensures
        TxOutRunView::<K, M>::start(keys).concludes(settings, session.replies(), session.result(keys)),
{
    let start = TxOutRunView::<K, M>::start(keys);
    let replies = session.replies();
    let result = session.result(keys);
    match session {
        TxOutSession::NoBlockCount(_) => {},
        TxOutSession::NoTxoCount { .. } => {
            let next = start.after(settings, replies[0])->Pending_0;
            assert(next.concludes(settings, replies.drop_first(), result));
        },
        TxOutSession::Answered { num_blocks, global_txo_count, outcomes } => {
            let next = start.after(settings, replies[0])->Pending_0;
            let rest = replies.drop_first();
            let empty = TxOutResponseView { num_blocks, global_txo_count, results: Seq::empty() };
            lemma_rest_concludes(settings, keys, empty, outcomes);
            assert(empty.results + all_results(keys, outcomes) =~= all_results(keys, outcomes));
            assert(rest.drop_first() =~= all_replies(outcomes));
            assert(next.concludes(settings, rest, result));
        },
    }
}

/// Where a run that ended was past the search that it was occupied with, and what the search had
/// ended with.
proof fn lemma_run_past_lookup_conversation<K, M, E>(
    settings: WatcherSettings,
    run: TxOutRunView<K, M>,
    replies: Seq<TxOutReply<K, M, E>>,
    result: Result<TxOutResponseView<M>, E>,
) -> (split: (Seq<TxOutReply<K, M, E>>, Result<TxOutResult<M>, E>, Seq<TxOutReply<K, M, E>>))
    requires
        run.stage is Lookup,
        run.concludes(settings, replies, result),
    ensures
        replies == split.0 + split.2,
        run.stage->lookup.concludes(settings, split.0, split.1),
        leads_to(
            TxOutRunView::resume(
                run.remaining,
                run.response.with(
                    crate::tx_out_service::reported(run.stage->Lookup_requested, split.1),
                ),
            ),
            settings,
            split.2,
            result,
        ),
    decreases replies.len(),
{
    let lookup = run.stage->lookup;
    let requested = run.stage->Lookup_requested;
    match lookup.after(settings, replies[0]) {
        Progress::Pending(next) => {
            let split = lemma_run_past_lookup_conversation(
                settings,
                TxOutRunView { stage: TxOutStage::Lookup { requested, lookup: next }, ..run },
                replies.drop_first(),
                result,
            );
            let own = seq![replies[0]] + split.0;
            assert(own.drop_first() =~= split.0);
            assert(replies =~= own + split.2) by {
                assert forall|i: int| 0 < i < replies.len() implies replies[i] == (own
                    + split.2)[i] by {
                    assert(replies[i] == replies.drop_first()[i - 1]);
                }
            }
            (own, split.1, split.2)
        },
        Progress::Done(searched) => {
            let own = seq![replies[0]];
            let later = replies.drop_first();
            assert(replies =~= own + later);
            assert(lookup.concludes(settings, own, searched));
            (own, searched, later)
        },
    }
}

/// The outcome behind the part of a run that is occupied with one public key, and the replies that
/// the run got afterwards.
proof fn lemma_key_conversation<K, M, E>(
    settings: WatcherSettings,
    run: TxOutRunView<K, M>,
    replies: Seq<TxOutReply<K, M, E>>,
    result: Result<TxOutResponseView<M>, E>,
) -> (split: (KeyOutcome<K, M, E>, Seq<TxOutReply<K, M, E>>))
    requires
        run.stage is Key,
        run.concludes(settings, replies, result),
    ensures
        split.0.is_valid(),
        replies == split.0.replies() + split.1,
        leads_to(
            TxOutRunView::resume(
                run.remaining,
                run.response.with(split.0.result(run.stage->Key_requested)),
            ),
            settings,
            split.1,
            result,
        ),
{
    let requested = run.stage->Key_requested;
    let rest = replies.drop_first();
    match replies[0]->Key_0 {
        KeyReply::Malformed => {
            let outcome = KeyOutcome::<K, M, E>::Malformed;
            assert(replies =~= outcome.replies() + rest);
            (outcome, rest)
        },
        KeyReply::Valid(decoded) => {
            let lookup = TxOutLookup::Index { key: decoded.key, encoded: decoded.encoded };
            let searching = TxOutRunView { stage: TxOutStage::Lookup { requested, lookup }, ..run };
            assert(searching.concludes(settings, rest, result));
            let (own, searched, later) = lemma_run_past_lookup_conversation(
                settings,
                searching,
                rest,
                result,
            );
            let outcome = lemma_lookup_conversation(settings, decoded, own, searched);
            let whole = KeyOutcome::Decoded { decoded, outcome };
            assert(replies =~= whole.replies() + later) by {
                assert forall|i: int| 0 < i < replies.len() implies replies[i] == (whole.replies()
                    + later)[i] by {
                    assert(replies[i] == rest[i - 1]);
                }
            }
            (whole, later)
        },
    }
}

/// The outcomes behind the rest of a run that ended.
proof fn lemma_rest_conversation<K, M, E>(
    settings: WatcherSettings,
    remaining: Seq<M>,
    response: TxOutResponseView<M>,
    replies: Seq<TxOutReply<K, M, E>>,
    result: Result<TxOutResponseView<M>, E>,
) -> (outcomes: Seq<KeyOutcome<K, M, E>>)
    requires
        leads_to(TxOutRunView::resume(remaining, response), settings, replies, result),
    ensures
        outcomes.len() == remaining.len(),
        all_valid(outcomes),
        replies == all_replies(outcomes),
        result == Ok::<TxOutResponseView<M>, E>(
            TxOutResponseView {
                results: response.results + all_results(remaining, outcomes),
                ..response
            },
        ),
    decreases remaining.len(),
{
    if remaining.len() == 0 {
        let outcomes = Seq::<KeyOutcome<K, M, E>>::empty();
        assert(replies =~= all_replies(outcomes));
        assert(response.results + all_results(remaining, outcomes) =~= response.results);
        outcomes
    } else {
        let run = TxOutRunView::<K, M>::resume::<E>(remaining, response)->Pending_0;
        let (outcome, later) = lemma_key_conversation(settings, run, replies, result);
        let next = response.with(outcome.result(remaining[0]));
        let rest = lemma_rest_conversation(settings, remaining.drop_first(), next, later, result);
        let outcomes = seq![outcome] + rest;
        assert(outcomes.drop_first() =~= rest);
        assert forall|i: int| 0 <= i < outcomes.len() implies (
        #[trigger] outcomes[i]).is_valid() by {
            if i > 0 {
                assert(outcomes[i] == rest[i - 1]);
            }
        }
        assert(next.results + all_results(remaining.drop_first(), rest) =~= response.results
            + all_results(remaining, outcomes));
        outcomes
    }
}

/// There are no other runs: every run for a request that ends is one of a session, with its
/// replies and its result.
pub proof fn law_run_conversations<K, M, E>(
    settings: WatcherSettings,
    keys: Seq<M>,
    replies: Seq<TxOutReply<K, M, E>>,
    result: Result<TxOutResponseView<M>, E>,
)
    requires
        TxOutRunView::<K, M>::start(keys).concludes(settings, replies, result),
    ensures
        exists|session: TxOutSession<K, M, E>|
            #![trigger session.is_valid(keys)]
            session.is_valid(keys) && replies == session.replies() && result == session.result(
                keys,
            ),
{
    let start = TxOutRunView::<K, M>::start(keys);
    match replies[0]->NumBlocks_0 {
        Err(error) => {
            let session = TxOutSession::<K, M, E>::NoBlockCount(error);
            assert(replies =~= session.replies());
            assert(session.is_valid(keys));
        },
        Ok(num_blocks) => {
            let next = start.after(settings, replies[0])->Pending_0;
            let rest = replies.drop_first();
            assert(next.concludes(settings, rest, result));
            match rest[0]->NumTxos_0 {
                Err(error) => {
                    let session = TxOutSession::<K, M, E>::NoTxoCount { num_blocks, error };
                    assert(replies =~= session.replies());
                    assert(session.is_valid(keys));
                },
                Ok(global_txo_count) => {
                    let later = rest.drop_first();
                    let empty = TxOutResponseView {
                        num_blocks,
                        global_txo_count,
                        results: Seq::empty(),
                    };
                    let outcomes = lemma_rest_conversation(settings, keys, empty, later, result);
                    let session = TxOutSession::Answered { num_blocks, global_txo_count, outcomes };
                    assert(empty.results + all_results(keys, outcomes) =~= all_results(
                        keys,
                        outcomes,
                    ));
                    assert(replies =~= session.replies()) by {
                        assert(replies[1] == rest[0]);
                        assert forall|i: int| 2 <= i < replies.len() implies replies[i]
                            == session.replies()[i] by {
                            assert(replies[i] == later[i - 2]);
                        }
                    }
                    assert(session.is_valid(keys));
                },
            }
        },
    }
}

/// Every requested public key gets exactly one result, at its own place. Only a result that says
/// `Found` has any numbers to tell. A key that cannot be decoded, or whose search fails, comes back
/// in the very message of the request.
pub proof fn law_one_result_per_key<K, M, E>(
    keys: Seq<M>,
    outcomes: Seq<KeyOutcome<K, M, E>>,
)
    requires
        outcomes.len() == keys.len(),
    ensures
        all_results(keys, outcomes).len() == keys.len(),
        forall|i: int|
            #![trigger all_results(keys, outcomes)[i]]
            0 <= i < keys.len() ==> {
                let result = all_results(keys, outcomes)[i];
                &&& result == outcomes[i].result(keys[i])
                &&& result.result_code != TxOutResultCode::Found ==> result == TxOutResult::bare(
                    result.tx_out_pubkey,
                    result.result_code,
                )
                &&& result.result_code == TxOutResultCode::MalformedRequest
                    <==> outcomes[i] is Malformed
                &&& result.result_code == TxOutResultCode::MalformedRequest || result.result_code
                    == TxOutResultCode::DatabaseError ==> result.tx_out_pubkey == keys[i]
            },
{
}

/// If every key that can be decoded is carried by the same message again, every result has the
/// message of the request at its place.
pub proof fn law_results_carry_their_keys<K, M, E>(
    keys: Seq<M>,
    outcomes: Seq<KeyOutcome<K, M, E>>,
)
    requires
        outcomes.len() == keys.len(),
        forall|i: int|
            0 <= i < keys.len() ==> ((#[trigger] outcomes[i]) matches KeyOutcome::Decoded {
                decoded,
                ..
            } ==> decoded.encoded == keys[i]),
    ensures
        forall|i: int|
            0 <= i < keys.len() ==> (#[trigger] all_results(keys, outcomes)[i]).tx_out_pubkey
                == keys[i],
{
    assert forall|i: int| 0 <= i < keys.len() implies (
    #[trigger] all_results(keys, outcomes)[i]).tx_out_pubkey == keys[i] by {
        assert(outcomes[i].result(keys[i]).tx_out_pubkey == keys[i]);
    }
}

/// For the same rounds of polling both services report the same timestamp with the same code.
pub proof fn law_services_agree_on_timestamps<T, M, E, F>(
    index: u64,
    block_outcome: BlockOutcome<T, F>,
    encoded: M,
    outcome: TxOutOutcome<E>,
)
    requires
        block_outcome is Found,
        outcome is Found,
        block_outcome->polls == outcome->polls,
    ensures
        block_outcome.result(index)->Ok_0.timestamp == outcome.result(encoded)->Ok_0.timestamp,
        block_outcome.result(index)->Ok_0.timestamp_result_code == outcome.result(
            encoded,
        )->Ok_0.timestamp_result_code,
{
}

/// While the watcher settles nothing, a run that waits for a timestamp stays with its public key:
/// only the wait before the next question changes, and it is the one that the settings prescribe.
pub proof fn law_unsettled_poll_keeps_key<K, M, E>(
    settings: WatcherSettings,
    run: TxOutRunView<K, M>,
    poll: Poll,
)
    requires
        run.stage matches TxOutStage::Lookup { lookup: TxOutLookup::Timestamp { .. }, .. },
        poll.reply.settles() is None,
    ensures
        run.after(settings, TxOutReply::<K, M, E>::Timestamp(poll)) == Progress::<
            TxOutRunView<K, M>,
            Result<TxOutResponseView<M>, E>,
        >::Pending(
            TxOutRunView {
                stage: TxOutStage::Lookup {
                    requested: run.stage->Lookup_requested,
                    lookup: TxOutLookup::Timestamp {
                        encoded: run.stage->lookup->Timestamp_encoded,
                        tx_out_index: run.stage->lookup->Timestamp_tx_out_index,
                        block_index: run.stage->lookup->Timestamp_block_index,
                        wait: Some(settings.wait_after(poll)),
                    },
                },
                ..run
            },
        ),
{
}

/// A reply to another question than the open one changes nothing.
pub proof fn law_stray_reply_changes_nothing<K, M, E>(
    settings: WatcherSettings,
    run: TxOutRunView<K, M>,
    reply: TxOutReply<K, M, E>,
)
    requires
        !run.asks().is_answered_by(reply),
    ensures
        run.after(settings, reply) == Progress::<
            TxOutRunView<K, M>,
            Result<TxOutResponseView<M>, E>,
        >::Pending(run),
{
}

impl<K, M> TxOutRunView<K, M> {
    /// The largest number of replies after which the run is over, rounds of polling that settle
    /// nothing aside.
    pub open spec fn replies_left(self) -> nat {
        let here: nat = match self.stage {
            TxOutStage::NumBlocks => 2,
            TxOutStage::NumTxos => 1,
            TxOutStage::Key { .. } => 4,
            TxOutStage::Lookup { lookup: TxOutLookup::Index { .. }, .. } => 3,
            TxOutStage::Lookup { lookup: TxOutLookup::BlockIndex { .. }, .. } => 2,
            TxOutStage::Lookup { lookup: TxOutLookup::Timestamp { .. }, .. } => 1,
        };
        here + 4 * self.remaining.len()
    }
}

/// Only the watcher can hold a run up: any reply to the open question, a round of polling that
/// settles nothing aside, ends the run or brings it nearer to its end.
pub proof fn law_only_the_watcher_holds_a_run_up<K, M, E>(
    settings: WatcherSettings,
    run: TxOutRunView<K, M>,
    reply: TxOutReply<K, M, E>,
)
    requires
        run.asks().is_answered_by(reply),
        reply matches TxOutReply::Timestamp(poll) ==> poll.reply.settles() is Some,
    ensures
        run.after(settings, reply) matches Progress::Pending(next) ==> next.replies_left()
            < run.replies_left(),
{
}

/// The polling for a block begins without a wait: the question for a timestamp that follows upon
/// the reply to another question is the first one for the block.
pub proof fn law_polling_begins_without_wait<K, M, E>(
    settings: WatcherSettings,
    run: TxOutRunView<K, M>,
    reply: TxOutReply<K, M, E>,
)
    requires
        run.asks().is_answered_by(reply),
        !(reply is Timestamp),
    ensures
        run.after(settings, reply) matches Progress::Pending(next) ==> (
        next.asks() matches TxOutQuery::Timestamp { wait, .. } ==> wait is None),
{
}

} // verus!
