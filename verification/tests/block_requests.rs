use fog_ledger::block::{Block, BlockRange, BlockRequest, BlockResponse};
use fog_ledger::block_service::{BlockLookup, BlockQuery, BlockReply, BlockRun, BlockService};
use fog_ledger::progress::Progress;
use fog_ledger::span::Span;
use fog_ledger::watcher::{Poll, TimestampResultCode, Wait, WatcherReply, WatcherSettings};

type Reply = BlockReply<u8, &'static str>;

fn service() -> BlockService {
    BlockService::new(Span::new(30, 0), Span::new(0, 200), Span::new(1, 0))
}

fn request(ranges: &[(u64, u64)]) -> BlockRequest {
    BlockRequest {
        ranges: ranges
            .iter()
            .map(|r| BlockRange { start_block: r.0, end_block: r.1 })
            .collect(),
    }
}

fn begin(request: BlockRequest) -> BlockRun<u8> {
    service().get_blocks::<u8, &str>(Ok(()), request).unwrap()
}

fn poll(timestamp: u64, code: TimestampResultCode, code_number: u32, secs: u64) -> Reply {
    BlockReply::Timestamp(Poll {
        reply: WatcherReply::Answer { timestamp, code, code_number },
        elapsed: Span::new(secs, 0),
    })
}

fn found(timestamp: u64) -> Reply {
    poll(timestamp, TimestampResultCode::TimestampFound, 1, 0)
}

fn first_poll(block_index: u64) -> BlockQuery {
    BlockQuery::Timestamp { block_index, wait: None }
}

fn block(index: u64, outputs: Vec<u8>, global_txo_count: u64, timestamp: u64) -> Block<u8> {
    Block { index, outputs, global_txo_count, timestamp, timestamp_result_code: 1 }
}

/// Holds a whole conversation, and checks that each question is asked when it should be and that
/// the last reply ends the run.
fn converse(
    run: BlockRun<u8>,
    conversation: Vec<(BlockQuery, Reply)>,
) -> Result<BlockResponse<u8>, &'static str> {
    let service = service();
    let count = conversation.len();
    let mut run = run;
    for (i, (query, reply)) in conversation.into_iter().enumerate() {
        assert_eq!(run.query(), query);
        match service.advance(run, reply) {
            Progress::Pending(next) => run = next,
            Progress::Done(result) => {
                assert_eq!(i + 1, count);
                return result;
            }
        }
    }
    panic!("the run is not over");
}

fn counts() -> Vec<(BlockQuery, Reply)> {
    vec![
        (BlockQuery::NumBlocks, BlockReply::NumBlocks(Ok(100))),
        (BlockQuery::NumTxos, BlockReply::NumTxos(Ok(900))),
    ]
}

fn found_block(index: u64, outputs: Vec<u8>, count: u64, timestamp: u64) -> Vec<(BlockQuery, Reply)> {
    vec![
        (BlockQuery::BlockContents(index), BlockReply::BlockContents(Ok(outputs))),
        (BlockQuery::Block(index), BlockReply::Block(Ok(count))),
        (first_poll(index), found(timestamp)),
    ]
}

#[test]
fn service_keeps_its_settings() {
    assert_eq!(
        service().settings,
        WatcherSettings {
            watcher_timeout: Span::new(30, 0),
            polling_frequency: Span::new(0, 200),
            error_retry_frequency: Span::new(1, 0),
        }
    );
}

#[test]
fn refused_caller_gets_the_refusal() {
    let answer = service().get_blocks::<u8, &str>(Err("who are you"), request(&[(0, 3)]));
    assert_eq!(answer.err(), Some("who are you"));
}

#[test]
fn authenticated_caller_gets_a_run() {
    let run = service().get_blocks::<u8, &str>(Ok(()), request(&[(0, 3)])).unwrap();
    assert_eq!(run.query(), BlockQuery::NumBlocks);
}

#[test]
fn failed_block_count_ends_the_run() {
    let run = begin(request(&[(0, 3)]));
    let result = converse(run, vec![(BlockQuery::NumBlocks, BlockReply::NumBlocks(Err("no db")))]);
    assert_eq!(result, Err("no db"));
}

#[test]
fn failed_txo_count_ends_the_run() {
    let run = begin(request(&[(0, 3)]));
    let result = converse(
        run,
        vec![
            (BlockQuery::NumBlocks, BlockReply::NumBlocks(Ok(100))),
            (BlockQuery::NumTxos, BlockReply::NumTxos(Err("no txos"))),
        ],
    );
    assert_eq!(result, Err("no txos"));
}

#[test]
fn request_without_indices_gets_the_counts() {
    let empty: [&[(u64, u64)]; 3] = [&[], &[(5, 5), (9, 2)], &[(u64::MAX, u64::MAX)]];
    for ranges in empty {
        let run = begin(request(ranges));
        assert_eq!(
            converse(run, counts()),
            Ok(BlockResponse { num_blocks: 100, global_txo_count: 900, blocks: vec![] })
        );
    }
}

#[test]
fn blocks_come_in_the_order_of_the_request() {
    let run = begin(request(&[(7, 9), (4, 4), (2, 3), (8, 9)]));
    let mut conversation = counts();
    conversation.extend(found_block(7, vec![70], 15, 700));
    conversation.extend(found_block(8, vec![80, 81], 17, 800));
    conversation.extend(found_block(2, vec![], 4, 200));
    conversation.extend(found_block(8, vec![80, 81], 17, 800));
    assert_eq!(
        converse(run, conversation),
        Ok(BlockResponse {
            num_blocks: 100,
            global_txo_count: 900,
            blocks: vec![
                block(7, vec![70], 15, 700),
                block(8, vec![80, 81], 17, 800),
                block(2, vec![], 4, 200),
                block(8, vec![80, 81], 17, 800),
            ],
        })
    );
}

#[test]
fn range_at_the_end_of_the_indices() {
    let run = begin(request(&[(u64::MAX - 1, u64::MAX)]));
    let mut conversation = counts();
    conversation.extend(found_block(u64::MAX - 1, vec![1], 2, 3));
    assert_eq!(
        converse(run, conversation).unwrap().blocks,
        vec![block(u64::MAX - 1, vec![1], 2, 3)]
    );
}

#[test]
fn blocks_that_fail_are_left_out() {
    let run = begin(request(&[(0, 4)]));
    let mut conversation = counts();
    conversation.push((
        BlockQuery::BlockContents(0),
        BlockReply::BlockContents(Err("no contents")),
    ));
    conversation.extend(found_block(1, vec![10], 1, 100));
    conversation.push((BlockQuery::BlockContents(2), BlockReply::BlockContents(Ok(vec![20]))));
    conversation.push((BlockQuery::Block(2), BlockReply::Block(Err("no block"))));
    conversation.extend(found_block(3, vec![30], 3, 300));
    assert_eq!(
        converse(run, conversation).unwrap().blocks,
        vec![block(1, vec![10], 1, 100), block(3, vec![30], 3, 300)]
    );
}

#[test]
fn run_stays_with_a_block_until_its_timestamp_is_settled() {
    let run = begin(request(&[(5, 6)]));
    let again = |overdue: bool, restarts_timer: bool, sleep: Span| BlockQuery::Timestamp {
        block_index: 5,
        wait: Some(Wait { overdue, restarts_timer, sleep }),
    };
    let mut conversation = counts();
    conversation.extend(vec![
        (BlockQuery::BlockContents(5), BlockReply::BlockContents(Ok(vec![50]))),
        (BlockQuery::Block(5), BlockReply::Block(Ok(55))),
        (first_poll(5), poll(9, TimestampResultCode::WatcherBehind, 2, 10)),
        (
            again(false, false, Span::new(0, 200)),
            poll(9, TimestampResultCode::WatcherBehind, 2, 31),
        ),
        (again(true, true, Span::new(0, 200)), poll(9, TimestampResultCode::Unavailable, 3, 0)),
        (
            again(false, true, Span::new(1, 0)),
            poll(9, TimestampResultCode::WatcherDatabaseError, 4, 99),
        ),
        (
            again(false, true, Span::new(1, 0)),
            BlockReply::Timestamp(Poll { reply: WatcherReply::Failed, elapsed: Span::new(99, 0) }),
        ),
        (
            again(false, true, Span::new(1, 0)),
            poll(9, TimestampResultCode::BlockIndexOutOfBounds, 5, 99),
        ),
    ]);
    assert_eq!(
        converse(run, conversation).unwrap().blocks,
        vec![Block {
            index: 5,
            outputs: vec![50],
            global_txo_count: 55,
            timestamp: u64::MAX,
            timestamp_result_code: 5,
        }]
    );
}

#[test]
fn stray_replies_change_nothing() {
    let service = service();
    let run = begin(request(&[(5, 6)]));
    match service.advance(run, found(1)) {
        Progress::Pending(run) => {
            assert_eq!(run.query(), BlockQuery::NumBlocks);
            let mut conversation = counts();
            conversation.extend(found_block(5, vec![50], 55, 500));
            assert_eq!(
                converse(run, conversation).unwrap().blocks,
                vec![block(5, vec![50], 55, 500)]
            );
        }
        Progress::Done(_) => panic!("the run is over"),
    }
}

#[test]
fn lookup_of_a_single_block() {
    let service = service();
    let lookup = service.get_block::<u8>(6);
    assert_eq!(lookup.query(), BlockQuery::BlockContents(6));
    let reply: Reply = BlockReply::BlockContents(Ok(vec![60]));
    let lookup = match service.advance_block(lookup, reply) {
        Progress::Pending(lookup) => lookup,
        Progress::Done(_) => panic!("the search is over"),
    };
    assert_eq!(lookup, BlockLookup::Header { index: 6, outputs: vec![60] });
    assert_eq!(lookup.query(), BlockQuery::Block(6));
    let reply: Reply = BlockReply::Block(Ok(66));
    let lookup = match service.advance_block(lookup, reply) {
        Progress::Pending(lookup) => lookup,
        Progress::Done(_) => panic!("the search is over"),
    };
    assert_eq!(lookup.query(), first_poll(6));
    assert_eq!(
        service.advance_block(lookup, found(600)),
        Progress::Done(Ok(block(6, vec![60], 66, 600)))
    );
}

#[test]
fn lookup_ends_with_the_error_of_the_ledger() {
    let service = service();
    let reply: Reply = BlockReply::BlockContents(Err("no contents"));
    assert_eq!(
        service.advance_block(service.get_block::<u8>(6), reply),
        Progress::Done(Err("no contents"))
    );
    let reply: Reply = BlockReply::Block(Err("no block"));
    assert_eq!(
        service.advance_block(BlockLookup::Header { index: 6, outputs: vec![1] }, reply),
        Progress::Done(Err("no block"))
    );
}
