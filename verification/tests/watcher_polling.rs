use fog_ledger::span::Span;
use fog_ledger::watcher::{
    BlockTimestamp, Poll, PollOutcome, TimestampResultCode, Wait, WatcherBehindTimer,
    WatcherReply, WatcherSettings,
};

fn settings() -> WatcherSettings {
    WatcherSettings {
        watcher_timeout: Span::new(30, 0),
        polling_frequency: Span::new(0, 200_000_000),
        error_retry_frequency: Span::new(1, 0),
    }
}

fn answer(timestamp: u64, code: TimestampResultCode, code_number: u32) -> WatcherReply {
    WatcherReply::Answer { timestamp, code, code_number }
}

fn judge(reply: WatcherReply, elapsed: Span) -> PollOutcome {
    settings().judge(Poll { reply, elapsed })
}

#[test]
fn span_is_compared_by_its_whole_length() {
    assert!(Span::new(2, 0).exceeds(&Span::new(1, 999_999_999)));
    assert!(Span::new(1, 1).exceeds(&Span::new(1, 0)));
    assert!(!Span::new(1, 0).exceeds(&Span::new(1, 0)));
    assert!(!Span::new(0, 999_999_999).exceeds(&Span::new(1, 0)));
    assert!(!Span::new(1, 0).exceeds(&Span::new(0, 1_000_000_000)));
    assert!(Span::new(u64::MAX, u32::MAX).exceeds(&Span::new(u64::MAX, 0)));
}

#[test]
fn span_keeps_its_parts() {
    assert_eq!(Span::new(7, 8), Span { secs: 7, nanos: 8 });
}

#[test]
fn found_timestamp_is_reported_with_its_code() {
    assert_eq!(
        judge(answer(1234, TimestampResultCode::TimestampFound, 17), Span::new(0, 0)),
        PollOutcome::Settled(BlockTimestamp { timestamp: 1234, timestamp_result_code: 17 })
    );
}

#[test]
fn found_timestamp_is_reported_however_late() {
    assert_eq!(
        judge(answer(0, TimestampResultCode::TimestampFound, 17), Span::new(4000, 0)),
        PollOutcome::Settled(BlockTimestamp { timestamp: 0, timestamp_result_code: 17 })
    );
}

#[test]
fn index_out_of_bounds_settles_the_largest_timestamp() {
    assert_eq!(
        judge(answer(1234, TimestampResultCode::BlockIndexOutOfBounds, 23), Span::new(0, 0)),
        PollOutcome::Settled(BlockTimestamp { timestamp: u64::MAX, timestamp_result_code: 23 })
    );
}

#[test]
fn watcher_behind_is_polled_again() {
    assert_eq!(
        judge(answer(1234, TimestampResultCode::WatcherBehind, 19), Span::new(29, 0)),
        PollOutcome::Retry(Wait { overdue: false, restarts_timer: false, sleep: Span::new(0, 200_000_000) })
    );
}

#[test]
fn watcher_is_overdue_only_past_the_timeout() {
    let behind = answer(0, TimestampResultCode::WatcherBehind, 19);
    assert_eq!(
        judge(behind, Span::new(30, 0)),
        PollOutcome::Retry(Wait { overdue: false, restarts_timer: false, sleep: Span::new(0, 200_000_000) })
    );
    assert_eq!(
        judge(behind, Span::new(30, 1)),
        PollOutcome::Retry(Wait { overdue: true, restarts_timer: true, sleep: Span::new(0, 200_000_000) })
    );
}

#[test]
fn other_obstacles_wait_for_the_error_retry_and_are_never_overdue() {
    let long = Span::new(4000, 0);
    let wait = PollOutcome::Retry(Wait { overdue: false, restarts_timer: true, sleep: Span::new(1, 0) });
    assert_eq!(judge(answer(5, TimestampResultCode::Unavailable, 20), long), wait);
    assert_eq!(judge(answer(5, TimestampResultCode::WatcherDatabaseError, 21), long), wait);
    assert_eq!(judge(WatcherReply::Failed, long), wait);
}

#[test]
fn span_since_an_earlier_reading() {
    assert_eq!(Span::new(5, 1).since(&Span::new(3, 2)), Span::new(1, 999_999_999));
    assert_eq!(Span::new(5, 1).since(&Span::new(5, 1)), Span::new(0, 0));
    assert_eq!(Span::new(5, 1).since(&Span::new(6, 0)), Span::new(0, 0));
    assert_eq!(
        Span::new(u64::MAX, u32::MAX).since(&Span::new(0, 0)),
        Span::new(u64::MAX, u32::MAX)
    );
}

#[test]
fn timer_runs_from_the_first_round_or_the_last_warning() {
    let mut timer = WatcherBehindTimer::new(Span::new(1, 0));
    timer.ready(None, Span::new(100, 0));
    assert_eq!(timer.started, Span::new(100, 0));
    let sleep = Span::new(1, 0);
    timer.ready(Some(Wait { overdue: false, restarts_timer: false, sleep }), Span::new(120, 0));
    assert_eq!(timer.started, Span::new(100, 0));
    timer.ready(Some(Wait { overdue: true, restarts_timer: true, sleep }), Span::new(131, 0));
    assert_eq!(timer.started, Span::new(131, 0));
    timer.ready(None, Span::new(140, 0));
    assert_eq!(timer.started, Span::new(140, 0));
    assert_eq!(
        timer.poll(WatcherReply::Failed, Span::new(142, 7)),
        Poll { reply: WatcherReply::Failed, elapsed: Span::new(2, 7) }
    );
}

#[test]
fn warnings_are_more_than_the_timeout_apart() {
    let settings = settings();
    let behind = answer(0, TimestampResultCode::WatcherBehind, 19);
    let mut timer = WatcherBehindTimer::new(Span::new(0, 0));
    let mut wait = None;
    let mut warned: Vec<u64> = vec![];
    for second in 10..110 {
        timer.ready(wait, Span::new(second, 0));
        match settings.judge(timer.poll(behind, Span::new(second, 0))) {
            PollOutcome::Retry(next) => {
                if next.overdue {
                    warned.push(second);
                }
                wait = Some(next);
            }
            PollOutcome::Settled(_) => panic!("nothing settles the timestamp"),
        }
    }
    assert_eq!(warned, vec![41, 73, 105]);
}

/// The waits that a conversation with the watcher leads to. Each round is readied at the first
/// second and answered at the other.
fn waits(rounds: &[(u64, u64, WatcherReply)]) -> Vec<Wait> {
    let settings = settings();
    let mut timer = WatcherBehindTimer::new(Span::new(0, 0));
    let mut waits: Vec<Wait> = vec![];
    for (readied, answered, reply) in rounds {
        timer.ready(waits.last().copied(), Span::new(*readied, 0));
        match settings.judge(timer.poll(*reply, Span::new(*answered, 0))) {
            PollOutcome::Retry(wait) => waits.push(wait),
            PollOutcome::Settled(_) => panic!("nothing settles the timestamp"),
        }
    }
    waits
}

#[test]
fn time_without_the_watcher_being_behind_does_not_count() {
    let behind = answer(0, TimestampResultCode::WatcherBehind, 19);
    let others = [
        answer(0, TimestampResultCode::Unavailable, 20),
        answer(0, TimestampResultCode::WatcherDatabaseError, 21),
        WatcherReply::Failed,
    ];
    for other in others {
        let overdue: Vec<bool> = waits(&[
            (10, 20, other),
            (21, 50, other),
            (51, 52, behind),
            (53, 81, behind),
            (81, 82, behind),
        ])
        .iter()
        .map(|wait| wait.overdue)
        .collect();
        assert_eq!(overdue, vec![false, false, false, false, true]);
    }
}

#[test]
fn a_break_in_being_behind_starts_the_timer_anew() {
    let behind = answer(0, TimestampResultCode::WatcherBehind, 19);
    let overdue: Vec<bool> = waits(&[
        (10, 30, behind),
        (30, 31, WatcherReply::Failed),
        (32, 45, behind),
        (45, 62, behind),
        (62, 63, behind),
        (63, 93, behind),
        (93, 94, behind),
    ])
    .iter()
    .map(|wait| wait.overdue)
    .collect();
    assert_eq!(overdue, vec![false, false, false, false, true, false, true]);
}
