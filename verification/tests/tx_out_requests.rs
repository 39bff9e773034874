use fog_ledger::block_service::{BlockReply, BlockService};
use fog_ledger::progress::Progress;
use fog_ledger::span::Span;
use fog_ledger::tx_out::{
    DecodedKey, TxOutRequest, TxOutResponse, TxOutResult, TxOutResultCode,
};
use fog_ledger::tx_out_service::{
    IndexReply, KeyReply, TxOutLookup, TxOutQuery, TxOutReply, TxOutRun, UntrustedTxOutService,
};
use fog_ledger::watcher::{Poll, TimestampResultCode, Wait, WatcherReply, WatcherSettings};

/// Keys that can be decoded are decoded to a number.
type Reply = TxOutReply<u32, Message, &'static str>;

/// A message with a key, and with something else that has no part in the decoding.
#[derive(Debug, PartialEq)]
struct Message {
    data: Vec<u8>,
    other: u8,
}

fn service() -> UntrustedTxOutService {
    UntrustedTxOutService::new(Span::new(30, 0), Span::new(0, 200), Span::new(1, 0))
}

fn proto(byte: u8) -> Message {
    Message { data: vec![byte; 32], other: 0 }
}

fn request(bytes: &[u8]) -> TxOutRequest<Message> {
    TxOutRequest { tx_out_pubkeys: bytes.iter().map(|b| proto(*b)).collect() }
}

fn begin(request: TxOutRequest<Message>) -> TxOutRun<u32, Message> {
    service().get_tx_outs::<u32, Message, &str>(Ok(()), request).unwrap()
}

fn decoded(byte: u8) -> DecodedKey<u32, Message> {
    DecodedKey { key: byte as u32 + 1000, encoded: proto(byte) }
}

/// A question, with the key that it is about held by value.
#[derive(Debug, PartialEq)]
enum Asked {
    NumBlocks,
    NumTxos,
    Key(u8),
    TxOutIndex(u32),
    BlockIndex(u64),
    Timestamp(u64, Option<Wait>),
}

fn asked(query: TxOutQuery<'_, u32, Message>) -> Asked {
    match query {
        TxOutQuery::NumBlocks => Asked::NumBlocks,
        TxOutQuery::NumTxos => Asked::NumTxos,
        TxOutQuery::Key(requested) => Asked::Key(requested.data[0]),
        TxOutQuery::TxOutIndex(key) => Asked::TxOutIndex(*key),
        TxOutQuery::BlockIndex(index) => Asked::BlockIndex(index),
        TxOutQuery::Timestamp { block_index, wait } => Asked::Timestamp(block_index, wait),
    }
}

fn poll(timestamp: u64, code: TimestampResultCode, code_number: u32, secs: u64) -> Reply {
    TxOutReply::Timestamp(Poll {
        reply: WatcherReply::Answer { timestamp, code, code_number },
        elapsed: Span::new(secs, 0),
    })
}

fn found(timestamp: u64) -> Reply {
    poll(timestamp, TimestampResultCode::TimestampFound, 1, 0)
}

fn bare(byte: u8, result_code: TxOutResultCode) -> TxOutResult<Message> {
    TxOutResult {
        tx_out_pubkey: proto(byte),
        result_code,
        tx_out_global_index: 0,
        block_index: 0,
        timestamp: 0,
        timestamp_result_code: 0,
    }
}

fn found_result(byte: u8, index: u64, block_index: u64, timestamp: u64) -> TxOutResult<Message> {
    TxOutResult {
        tx_out_pubkey: proto(byte),
        result_code: TxOutResultCode::Found,
        tx_out_global_index: index,
        block_index,
        timestamp,
        timestamp_result_code: 1,
    }
}

/// Holds a whole conversation, and checks that each question is asked when it should be and that
/// the last reply ends the run.
fn converse(
    run: TxOutRun<u32, Message>,
    conversation: Vec<(Asked, Reply)>,
) -> Result<TxOutResponse<Message>, &'static str> {
    let service = service();
    let count = conversation.len();
    let mut run = run;
    for (i, (query, reply)) in conversation.into_iter().enumerate() {
        assert_eq!(asked(run.query()), query);
        match service.advance(run, reply) {
            Progress::Pending(next) => run = next,
            Progress::Done(result) => {
                assert_eq!(i + 1, count);
                return result;
            }
        }
    }
    panic!("the run is not over");
}

fn counts() -> Vec<(Asked, Reply)> {
    vec![
        (Asked::NumBlocks, TxOutReply::NumBlocks(Ok(100))),
        (Asked::NumTxos, TxOutReply::NumTxos(Ok(900))),
    ]
}

fn valid(byte: u8) -> (Asked, Reply) {
    (Asked::Key(byte), TxOutReply::Key(KeyReply::Valid(decoded(byte))))
}

#[test]
fn tx_out_service_keeps_its_settings() {
    assert_eq!(
        service().settings,
        WatcherSettings {
            watcher_timeout: Span::new(30, 0),
            polling_frequency: Span::new(0, 200),
            error_retry_frequency: Span::new(1, 0),
        }
    );
}

#[test]
fn refused_tx_out_caller_gets_the_refusal() {
    let answer = service().get_tx_outs::<u32, Message, &str>(Err("who are you"), request(&[1]));
    assert_eq!(answer.err(), Some("who are you"));
}

#[test]
fn authenticated_tx_out_caller_gets_a_run() {
    let run = service().get_tx_outs::<u32, Message, &str>(Ok(()), request(&[1])).unwrap();
    assert_eq!(asked(run.query()), Asked::NumBlocks);
}

#[test]
fn failed_counts_end_the_tx_out_run() {
    let run = begin(request(&[1]));
    assert_eq!(
        converse(run, vec![(Asked::NumBlocks, TxOutReply::NumBlocks(Err("no db")))]),
        Err("no db")
    );
    let run = begin(request(&[1]));
    assert_eq!(
        converse(
            run,
            vec![
                (Asked::NumBlocks, TxOutReply::NumBlocks(Ok(100))),
                (Asked::NumTxos, TxOutReply::NumTxos(Err("no txos"))),
            ]
        ),
        Err("no txos")
    );
}

#[test]
fn request_without_keys_gets_the_counts() {
    let run = begin(request(&[]));
    assert_eq!(
        converse(run, counts()),
        Ok(TxOutResponse { num_blocks: 100, global_txo_count: 900, results: vec![] })
    );
}

#[test]
fn every_key_gets_its_own_result() {
    let run = begin(request(&[1, 2, 3, 4, 5]));
    let mut conversation = counts();
    conversation.extend(vec![
        valid(1),
        (Asked::TxOutIndex(1001), TxOutReply::TxOutIndex(IndexReply::Index(11))),
        (Asked::BlockIndex(11), TxOutReply::BlockIndex(Ok(7))),
        (Asked::Timestamp(7, None), found(700)),
        (Asked::Key(2), TxOutReply::Key(KeyReply::Malformed)),
        valid(3),
        (Asked::TxOutIndex(1003), TxOutReply::TxOutIndex(IndexReply::NotFound)),
        valid(4),
        (Asked::TxOutIndex(1004), TxOutReply::TxOutIndex(IndexReply::Failed("no index"))),
        valid(5),
        (Asked::TxOutIndex(1005), TxOutReply::TxOutIndex(IndexReply::Index(15))),
        (Asked::BlockIndex(15), TxOutReply::BlockIndex(Err("no block"))),
    ]);
    assert_eq!(
        converse(run, conversation),
        Ok(TxOutResponse {
            num_blocks: 100,
            global_txo_count: 900,
            results: vec![
                found_result(1, 11, 7, 700),
                bare(2, TxOutResultCode::MalformedRequest),
                bare(3, TxOutResultCode::NotFound),
                bare(4, TxOutResultCode::DatabaseError),
                bare(5, TxOutResultCode::DatabaseError),
            ],
        })
    );
}

#[test]
fn results_of_a_search_carry_the_encoding_of_the_key() {
    let other = || DecodedKey { key: 1001, encoded: proto(99) };
    let results = |replies: Vec<(Asked, Reply)>| {
        let run = begin(request(&[1]));
        let mut conversation = counts();
        conversation.push((Asked::Key(1), TxOutReply::Key(KeyReply::Valid(other()))));
        conversation.extend(replies);
        converse(run, conversation).unwrap().results
    };
    assert_eq!(
        results(vec![(Asked::TxOutIndex(1001), TxOutReply::TxOutIndex(IndexReply::NotFound))]),
        vec![bare(99, TxOutResultCode::NotFound)]
    );
    assert_eq!(
        results(vec![
            (Asked::TxOutIndex(1001), TxOutReply::TxOutIndex(IndexReply::Index(11))),
            (Asked::BlockIndex(11), TxOutReply::BlockIndex(Ok(7))),
            (Asked::Timestamp(7, None), found(700)),
        ]),
        vec![found_result(99, 11, 7, 700)]
    );
    assert_eq!(
        results(vec![(
            Asked::TxOutIndex(1001),
            TxOutReply::TxOutIndex(IndexReply::Failed("no index"))
        )]),
        vec![bare(1, TxOutResultCode::DatabaseError)]
    );
}

#[test]
fn run_stays_with_a_key_until_the_timestamp_is_settled() {
    let run = begin(request(&[1]));
    let again = |overdue: bool, restarts_timer: bool, sleep: Span| {
        Asked::Timestamp(7, Some(Wait { overdue, restarts_timer, sleep }))
    };
    let mut conversation = counts();
    conversation.extend(vec![
        valid(1),
        (Asked::TxOutIndex(1001), TxOutReply::TxOutIndex(IndexReply::Index(11))),
        (Asked::BlockIndex(11), TxOutReply::BlockIndex(Ok(7))),
        (Asked::Timestamp(7, None), poll(9, TimestampResultCode::WatcherBehind, 2, 31)),
        (again(true, true, Span::new(0, 200)), poll(9, TimestampResultCode::WatcherBehind, 2, 1)),
        (again(false, false, Span::new(0, 200)), poll(9, TimestampResultCode::Unavailable, 3, 31)),
        (
            again(false, true, Span::new(1, 0)),
            poll(9, TimestampResultCode::BlockIndexOutOfBounds, 5, 31),
        ),
    ]);
    assert_eq!(
        converse(run, conversation).unwrap().results,
        vec![TxOutResult {
            tx_out_pubkey: proto(1),
            result_code: TxOutResultCode::Found,
            tx_out_global_index: 11,
            block_index: 7,
            timestamp: u64::MAX,
            timestamp_result_code: 5,
        }]
    );
}

#[test]
fn stray_replies_change_nothing_for_tx_outs() {
    let service = service();
    let run = begin(request(&[1]));
    match service.advance(run, found(1)) {
        Progress::Pending(run) => {
            let mut conversation = counts();
            conversation.push((Asked::Key(1), TxOutReply::Key(KeyReply::Malformed)));
            assert_eq!(
                converse(run, conversation).unwrap().results,
                vec![bare(1, TxOutResultCode::MalformedRequest)]
            );
        }
        Progress::Done(_) => panic!("the run is over"),
    }
}

#[test]
fn lookup_of_a_single_tx_out() {
    let service = service();
    let lookup = service.get_tx_out(decoded(6));
    assert_eq!(lookup, TxOutLookup::Index { key: 1006, encoded: proto(6) });
    assert_eq!(asked(lookup.query()), Asked::TxOutIndex(1006));
    let reply: Reply = TxOutReply::TxOutIndex(IndexReply::Index(16));
    assert_eq!(
        service.advance_tx_out(lookup, reply),
        Progress::Pending(TxOutLookup::BlockIndex { encoded: proto(6), tx_out_index: 16 })
    );
    let reply: Reply = TxOutReply::TxOutIndex(IndexReply::Failed("no index"));
    assert_eq!(
        service.advance_tx_out(service.get_tx_out(decoded(6)), reply),
        Progress::Done(Err("no index"))
    );
}

#[test]
fn bare_results_hold_no_numbers() {
    assert_eq!(
        TxOutResult::new(proto(3), TxOutResultCode::NotFound),
        bare(3, TxOutResultCode::NotFound)
    );
}

#[test]
fn services_agree_on_timestamps() {
    let codes = [TimestampResultCode::TimestampFound, TimestampResultCode::BlockIndexOutOfBounds];
    for code in codes {
        let poll = Poll {
            reply: WatcherReply::Answer { timestamp: 77, code, code_number: 8 },
            elapsed: Span::new(0, 0),
        };
        let blocks = BlockService::new(Span::new(30, 0), Span::new(0, 200), Span::new(1, 0));
        let lookup = fog_ledger::block_service::BlockLookup::Timestamp {
            index: 7,
            outputs: vec![0u8],
            global_txo_count: 3,
            wait: None,
        };
        let reply: BlockReply<u8, &str> = BlockReply::Timestamp(poll);
        let block = match blocks.advance_block(lookup, reply) {
            Progress::Done(Ok(block)) => block,
            _ => panic!("no block"),
        };
        let lookup: TxOutLookup<u32, Message> = TxOutLookup::Timestamp {
            encoded: proto(1),
            tx_out_index: 2,
            block_index: 7,
            wait: None,
        };
        let reply: Reply = TxOutReply::Timestamp(poll);
        let result = match service().advance_tx_out(lookup, reply) {
            Progress::Done(Ok(result)) => result,
            _ => panic!("no result"),
        };
        assert_eq!(block.timestamp, result.timestamp);
        assert_eq!(block.timestamp_result_code, result.timestamp_result_code);
        assert_eq!(result.timestamp_result_code, 8);
    }
}

#[test]
fn keys_that_fail_come_back_in_the_very_message_of_the_request() {
    let message = |byte: u8| Message { data: vec![byte; 3], other: byte };
    let run = begin(TxOutRequest { tx_out_pubkeys: vec![message(1), message(2), message(3)] });
    let mut conversation = counts();
    conversation.extend(vec![
        (Asked::Key(1), TxOutReply::Key(KeyReply::Malformed)),
        valid(2),
        (Asked::TxOutIndex(1002), TxOutReply::TxOutIndex(IndexReply::Failed("no index"))),
        valid(3),
        (Asked::TxOutIndex(1003), TxOutReply::TxOutIndex(IndexReply::NotFound)),
    ]);
    assert_eq!(
        converse(run, conversation).unwrap().results,
        vec![
            TxOutResult::new(message(1), TxOutResultCode::MalformedRequest),
            TxOutResult::new(message(2), TxOutResultCode::DatabaseError),
            bare(3, TxOutResultCode::NotFound),
        ]
    );
}
