//! Finding the timestamp of a block by polling the watcher.
//!
//! The watcher may not have caught up with the ledger yet, or may be out of order for a while.
//! Asking it, sleeping and reading the clock is the caller's work; this module decides after each
//! reply whether a timestamp has been settled and, if not, how long to sleep before the next try
//! and whether the watcher has been behind for too long.
use vstd::prelude::*;

use crate::span::Span;

verus! {

/// What the watcher says about the timestamp that comes with its answer.
#[derive(Clone, Copy, Debug, PartialEq, Eq)]
pub enum TimestampResultCode {
    /// The timestamp is known.
    TimestampFound,
    /// The watcher has not reached the block yet.
    WatcherBehind,
    /// The watcher is configured so that it will not have timestamps.
    Unavailable,
    /// The watcher could not read its own database.
    WatcherDatabaseError,
    /// There is no such block for the watcher.
    BlockIndexOutOfBounds,
}

/// One reply of the watcher to the question for a block's timestamp.
#[derive(Clone, Copy, Debug, PartialEq, Eq)]
pub enum WatcherReply {
    /// The watcher answered. `code_number` is the number that stands for `code` in responses.
    Answer { timestamp: u64, code: TimestampResultCode, code_number: u32 },
    /// The question itself failed.
    Failed,
}

/// One round of polling: the reply, and how long the watcher-behind timer had been running when
/// the reply was in.
#[derive(Clone, Copy, Debug, PartialEq, Eq)]
pub struct Poll {
    pub reply: WatcherReply,
    pub elapsed: Span,
}

/// The timer that tracks for how long the watcher has been behind on a block. It is started by the
/// first round of polling for the block, and anew by a round that follows upon a warning or upon
/// anything else than the answer that the watcher is behind.
#[derive(Clone, Copy, Debug, PartialEq, Eq)]
pub struct WatcherBehindTimer {
    /// The reading of the clock when the timer was started.
    pub started: Span,
}

/// A settled timestamp, as responses report it.
#[derive(Clone, Copy, Debug, PartialEq, Eq)]
pub struct BlockTimestamp {
    pub timestamp: u64,
    pub timestamp_result_code: u32,
}

/// What to do before the watcher is asked again.
#[derive(Clone, Copy, Debug, PartialEq, Eq)]
pub struct Wait {
    /// The watcher has been behind for longer than is tolerated: this calls for a warning.
    pub overdue: bool,
    /// The watcher-behind timer starts anew.
    pub restarts_timer: bool,
    /// How long to sleep.
    pub sleep: Span,
}

/// What a round of polling leads to.
#[derive(Clone, Copy, Debug, PartialEq, Eq)]
pub enum PollOutcome {
    Settled(BlockTimestamp),
    Retry(Wait),
}

/// How a service polls the watcher.
#[derive(Clone, Copy, Debug, PartialEq, Eq)]
pub struct WatcherSettings {
    /// How long the watcher may be behind before that calls for a warning.
    pub watcher_timeout: Span,
    /// How long to sleep while the watcher is behind.
    pub polling_frequency: Span,
    /// How long to sleep after any other obstacle.
    pub error_retry_frequency: Span,
}

impl WatcherReply {
    /// The timestamp that the reply settles, if it settles one: the watcher's own where it found
    /// one, and the largest possible one where the block index is out of bounds. The watcher's
    /// code is reported along with it either way.
    pub open spec fn settles(self) -> Option<BlockTimestamp> {
        match self {
            WatcherReply::Answer { timestamp, code: TimestampResultCode::TimestampFound, code_number } =>
                Some(BlockTimestamp { timestamp, timestamp_result_code: code_number }),
            WatcherReply::Answer {
                timestamp: _,
                code: TimestampResultCode::BlockIndexOutOfBounds,
                code_number,
            } => Some(BlockTimestamp { timestamp: u64::MAX, timestamp_result_code: code_number }),
            _ => None,
        }
    }

    /// Whether the watcher says that it has not reached the block yet.
    pub open spec fn is_behind(self) -> bool {
        self matches WatcherReply::Answer { code: TimestampResultCode::WatcherBehind, .. }
    }
}

impl WatcherBehindTimer {
    /// How long the timer has been running when the clock reads `now`, in nanoseconds.
    pub open spec fn nanos_at(self, now: Span) -> nat {
        if now.as_nanos() > self.started.as_nanos() {
            (now.as_nanos() - self.started.as_nanos()) as nat
        } else {
            0
        }
    }

    /// The timer as it is for a round of polling that `wait` comes before, when the clock reads
    /// `now`. The first round for a block, which nothing comes before, starts the timer, and so
    /// does a round whose wait says so.
    pub open spec fn readied(self, wait: Option<Wait>, now: Span) -> WatcherBehindTimer {
        match wait {
            Some(wait) if !wait.restarts_timer => self,
            _ => WatcherBehindTimer { started: now },
        }
    }

    /// A timer that is started when the clock reads `now`.
    pub fn new(now: Span) -> (timer: WatcherBehindTimer)
        ensures
            timer.started == now,
    {
        WatcherBehindTimer { started: now }
    }

    /// Readies the timer for a round of polling that `wait` comes before, when the clock reads
    /// `now`. The sleep that `wait` asks for is yet to come.
    pub fn ready(&mut self, wait: Option<Wait>, now: Span)
        ensures
            *final(self) == old(self).readied(wait, now),
            wait is None ==> final(self).started == now,
            wait matches Some(wait) ==> final(self).started == if wait.restarts_timer {
                now
            } else {
                old(self).started
            },
    {
        let restart: bool = match wait {
            Some(wait) => wait.restarts_timer,
            None => true,
        };
        if restart {
            self.started = now;
        }
    }

    /// The round of polling that got `reply`, which was in when the clock read `now`.
    pub fn poll(&self, reply: WatcherReply, now: Span) -> (poll: Poll)
        ensures
            poll.reply == reply,
            poll.elapsed.as_nanos() == self.nanos_at(now),
            poll.elapsed.secs * 1_000_000_000 + poll.elapsed.nanos == if now.secs * 1_000_000_000
                + now.nanos > self.started.secs * 1_000_000_000 + self.started.nanos {
                now.secs * 1_000_000_000 + now.nanos - self.started.secs * 1_000_000_000
                    - self.started.nanos
            } else {
                0
            },
    {
        Poll { reply, elapsed: now.since(&self.started) }
    }
}

/// Whether `polls` are the rounds of polling of one search for a timestamp, from the first to the
/// one that settled it.
pub open spec fn is_settled_by(polls: Seq<Poll>) -> bool {
    &&& polls.len() > 0
    &&& polls.last().reply.settles() is Some
    &&& forall|i: int| 0 <= i < polls.len() - 1 ==> (#[trigger] polls[i]).reply.settles() is None
}

/// The timestamp that was settled by the last of `polls`.
pub open spec fn settled_timestamp(polls: Seq<Poll>) -> BlockTimestamp {
    polls.last().reply.settles()->0
}

impl WatcherSettings {
    /// The wait that follows a round of polling which settled nothing. The polling frequency is
    /// for a watcher that is merely behind, and only such a watcher can be overdue. The timer goes
    /// on only while the watcher is behind and not overdue.
    pub open spec fn wait_after(self, poll: Poll) -> Wait {
        let overdue = poll.reply.is_behind() && poll.elapsed.as_nanos()
            > self.watcher_timeout.as_nanos();
        Wait {
            overdue,
            restarts_timer: overdue || !poll.reply.is_behind(),
            sleep: if poll.reply.is_behind() {
                self.polling_frequency
            } else {
                self.error_retry_frequency
            },
        }
    }

    /// What a round of polling leads to.
    pub open spec fn outcome(self, poll: Poll) -> PollOutcome {
        match poll.reply.settles() {
            Some(settled) => PollOutcome::Settled(settled),
            None => PollOutcome::Retry(self.wait_after(poll)),
        }
    }

    /// Decides what a round of polling leads to.
    pub fn judge(&self, poll: Poll) -> (outcome: PollOutcome)
        ensures
            outcome == self.outcome(poll),
            match poll.reply {
                WatcherReply::Answer { timestamp, code, code_number } => match code {
                    TimestampResultCode::TimestampFound => outcome matches PollOutcome::Settled(settled)
                        && settled.timestamp == timestamp && settled.timestamp_result_code
                        == code_number,
                    TimestampResultCode::BlockIndexOutOfBounds => outcome matches PollOutcome::Settled(
                        settled,
                    ) && settled.timestamp == u64::MAX && settled.timestamp_result_code == code_number,
                    TimestampResultCode::WatcherBehind => outcome matches PollOutcome::Retry(wait)
                        && wait.sleep == self.polling_frequency && wait.restarts_timer == wait.overdue
                        && (wait.overdue <==> poll.elapsed.secs * 1_000_000_000 + poll.elapsed.nanos
                        > self.watcher_timeout.secs * 1_000_000_000 + self.watcher_timeout.nanos),
                    TimestampResultCode::Unavailable => outcome matches PollOutcome::Retry(wait)
                        && wait.sleep == self.error_retry_frequency && wait.restarts_timer
                        && !wait.overdue,
                    TimestampResultCode::WatcherDatabaseError => outcome matches PollOutcome::Retry(wait)
                        && wait.sleep == self.error_retry_frequency && wait.restarts_timer
                        && !wait.overdue,
                },
                WatcherReply::Failed => outcome matches PollOutcome::Retry(wait) && wait.sleep
                    == self.error_retry_frequency && wait.restarts_timer && !wait.overdue,
            },
    {
        match poll.reply {
            WatcherReply::Answer { timestamp, code, code_number } => match code {
                TimestampResultCode::WatcherBehind => {
                    let overdue: bool = poll.elapsed.exceeds(&self.watcher_timeout);
                    PollOutcome::Retry(
                        Wait { overdue, restarts_timer: overdue, sleep: self.polling_frequency },
                    )
                },
                TimestampResultCode::BlockIndexOutOfBounds => PollOutcome::Settled(
                    BlockTimestamp { timestamp: u64::MAX, timestamp_result_code: code_number },
                ),
                TimestampResultCode::Unavailable => PollOutcome::Retry(self.retry_after_error()),
                TimestampResultCode::WatcherDatabaseError => PollOutcome::Retry(
                    self.retry_after_error(),
                ),
                TimestampResultCode::TimestampFound => PollOutcome::Settled(
                    BlockTimestamp { timestamp, timestamp_result_code: code_number },
                ),
            },
            WatcherReply::Failed => PollOutcome::Retry(self.retry_after_error()),
        }
    }

    /// The wait after an obstacle other than a watcher that is behind.
    fn retry_after_error(&self) -> (wait: Wait)
        ensures
            wait == (Wait {
                overdue: false,
                restarts_timer: true,
                sleep: self.error_retry_frequency,
            }),
    {
        Wait { overdue: false, restarts_timer: true, sleep: self.error_retry_frequency }
    }
}

/// A found timestamp is settled as the watcher gave it, an index out of bounds settles the largest
/// timestamp, both with the watcher's number for its code; nothing else settles one. A watcher that
/// is behind is asked again after the polling frequency, and is overdue if the timer is past the
/// timeout; anything else is tried again after the error retry frequency.
pub proof fn law_outcome_of_a_poll(settings: WatcherSettings, poll: Poll)
    ensures
        match poll.reply {
            WatcherReply::Answer { timestamp, code, code_number } => match code {
                TimestampResultCode::TimestampFound => settings.outcome(poll) matches PollOutcome::Settled(settled)
                    && settled.timestamp == timestamp && settled.timestamp_result_code
                    == code_number,
                TimestampResultCode::BlockIndexOutOfBounds => settings.outcome(poll) matches PollOutcome::Settled(
                    settled,
                ) && settled.timestamp == u64::MAX && settled.timestamp_result_code == code_number,
                TimestampResultCode::WatcherBehind => settings.outcome(poll) matches PollOutcome::Retry(wait)
                    && wait.sleep == settings.polling_frequency && wait.restarts_timer == wait.overdue
                    && (wait.overdue <==> poll.elapsed.secs * 1_000_000_000 + poll.elapsed.nanos
                    > settings.watcher_timeout.secs * 1_000_000_000 + settings.watcher_timeout.nanos),
                TimestampResultCode::Unavailable => settings.outcome(poll) matches PollOutcome::Retry(wait)
                    && wait.sleep == settings.error_retry_frequency && wait.restarts_timer
                    && !wait.overdue,
                TimestampResultCode::WatcherDatabaseError => settings.outcome(poll) matches PollOutcome::Retry(wait)
                    && wait.sleep == settings.error_retry_frequency && wait.restarts_timer
                    && !wait.overdue,
            },
            WatcherReply::Failed => settings.outcome(poll) matches PollOutcome::Retry(wait) && wait.sleep
                == settings.error_retry_frequency && wait.restarts_timer && !wait.overdue,
        },
{
}

/// The timer is started by the first round for a block and by a round whose wait says so, and else
/// goes on; what it shows and when it was started add up to what the clock reads.
pub proof fn law_timer(timer: WatcherBehindTimer, wait: Wait, now: Span, later: Span)
    ensures
        timer.readied(None, now).started == now,
        wait.restarts_timer ==> timer.readied(Some(wait), now).started == now,
        !wait.restarts_timer ==> timer.readied(Some(wait), now).started == timer.started,
        later.as_nanos() >= timer.started.as_nanos() ==> timer.started.as_nanos() + timer.nanos_at(
            later,
        ) == later.as_nanos(),
        later.as_nanos() <= timer.started.as_nanos() ==> timer.nanos_at(later) == 0,
{
}

/// A round of polling with the readings of the clock when the timer was readied for it and when
/// the reply was in.
pub struct TimedPoll {
    pub readied: Span,
    pub poll: Poll,
    pub answered: Span,
}

/// The timer as it is for the last of `rounds`, the rounds of polling for a block so far.
pub open spec fn timer_in_last(
    settings: WatcherSettings,
    rounds: Seq<TimedPoll>,
) -> WatcherBehindTimer
    decreases rounds.len(),
{
    if rounds.len() <= 1 {
        WatcherBehindTimer { started: rounds.last().readied }
    } else {
        let earlier = rounds.drop_last();
        timer_in_last(settings, earlier).readied(
            Some(settings.wait_after(earlier.last().poll)),
            rounds.last().readied,
        )
    }
}

/// Whether `rounds` are the first rounds of polling for a block, each with the time on the timer
/// that the clock shows. The clock never goes back.
pub open spec fn is_timed(settings: WatcherSettings, rounds: Seq<TimedPoll>) -> bool {
    &&& forall|i: int|
        0 <= i < rounds.len() ==> (#[trigger] rounds[i]).poll.elapsed.as_nanos() == timer_in_last(
            settings,
            rounds.take(i + 1),
        ).nanos_at(rounds[i].answered)
    &&& forall|i: int|
        0 <= i < rounds.len() ==> (#[trigger] rounds[i]).readied.as_nanos()
            <= rounds[i].answered.as_nanos()
    &&& forall|i: int, j: int|
        0 <= i < j < rounds.len() ==> (#[trigger] rounds[i]).answered.as_nanos() <= (
        #[trigger] rounds[j]).readied.as_nanos()
}

/// Whether the round calls for a warning.
pub open spec fn warns(settings: WatcherSettings, round: TimedPoll) -> bool {
    settings.wait_after(round.poll).overdue
}

/// Whether the rounds from `from` on, up to but without `to`, are rounds in which the watcher is
/// behind and which call for no warning, while the round before them is not such a round or there
/// is none.
pub open spec fn is_behind_since(
    settings: WatcherSettings,
    rounds: Seq<TimedPoll>,
    from: int,
    to: int,
) -> bool {
    &&& 0 <= from <= to < rounds.len()
    &&& from == 0 || warns(settings, rounds[from - 1]) || !rounds[from - 1].poll.reply.is_behind()
    &&& forall|i: int|
        from <= i < to ==> (#[trigger] rounds[i]).poll.reply.is_behind() && !warns(
            settings,
            rounds[i],
        )
}

/// The timer of a round runs from when it was readied for the round since which the watcher has
/// been behind.
proof fn lemma_timer_runs_from(
    settings: WatcherSettings,
    rounds: Seq<TimedPoll>,
    from: int,
    to: int,
)
    requires
        is_behind_since(settings, rounds, from, to),
    ensures
        timer_in_last(settings, rounds.take(to + 1)).started == rounds[from].readied,
    decreases to,
{
    if to > 0 {
        assert(rounds.take(to + 1).drop_last() =~= rounds.take(to));
        if from < to {
            lemma_timer_runs_from(settings, rounds, from, to - 1);
        }
    }
}

/// Each round has a round since which the watcher has been behind.
proof fn lemma_timer_start(settings: WatcherSettings, rounds: Seq<TimedPoll>, to: int) -> (from: int)
    requires
        0 <= to < rounds.len(),
    ensures
        is_behind_since(settings, rounds, from, to),
    decreases to,
{
    if to == 0 || warns(settings, rounds[to - 1]) || !rounds[to - 1].poll.reply.is_behind() {
        to
    } else {
        lemma_timer_start(settings, rounds, to - 1)
    }
}

/// A warning is about a watcher that is behind, and comes exactly when more than the timeout has
/// gone by since the round `from` was readied, where `from` is the first of the rounds in which the
/// watcher has been behind without a break and without a warning.
pub proof fn law_when_to_warn(
    settings: WatcherSettings,
    rounds: Seq<TimedPoll>,
    from: int,
    to: int,
)
    requires
        is_timed(settings, rounds),
        is_behind_since(settings, rounds, from, to),
    ensures
        warns(settings, rounds[to]) <==> rounds[to].poll.reply.is_behind()
            && rounds[to].answered.as_nanos() - rounds[from].readied.as_nanos()
            > settings.watcher_timeout.as_nanos(),
{
    lemma_timer_runs_from(settings, rounds, from, to);
    assert(rounds[from].readied.as_nanos() <= rounds[from].answered.as_nanos());
    assert(rounds[to].readied.as_nanos() <= rounds[to].answered.as_nanos());
}

/// A warning comes only after the watcher has been behind for more than the timeout, in every round
/// of that time.
pub proof fn law_warning_means_behind_throughout(
    settings: WatcherSettings,
    rounds: Seq<TimedPoll>,
    to: int,
)
    requires
        is_timed(settings, rounds),
        0 <= to < rounds.len(),
        warns(settings, rounds[to]),
    ensures
        exists|from: int|
            0 <= from <= to && (#[trigger] rounds[from]).readied.as_nanos()
                + settings.watcher_timeout.as_nanos() < rounds[to].answered.as_nanos() && (
            forall|i: int| from <= i <= to ==> (#[trigger] rounds[i]).poll.reply.is_behind()),
{
    let from = lemma_timer_start(settings, rounds, to);
    law_when_to_warn(settings, rounds, from, to);
    assert(rounds[from].readied.as_nanos() + settings.watcher_timeout.as_nanos()
        < rounds[to].answered.as_nanos());
}

/// Warnings about a block are more than the timeout apart, and the first one comes more than the
/// timeout after the polling for the block began.
pub proof fn law_warnings_are_apart(settings: WatcherSettings, rounds: Seq<TimedPoll>)
    requires
        is_timed(settings, rounds),
    ensures
        forall|j: int|
            0 <= j < rounds.len() && warns(settings, #[trigger] rounds[j])
                ==> rounds[j].answered.as_nanos() - rounds[0].readied.as_nanos()
                > settings.watcher_timeout.as_nanos(),
        forall|i: int, j: int|
            0 <= i < j < rounds.len() && warns(settings, #[trigger] rounds[i]) && warns(
                settings,
                #[trigger] rounds[j],
            ) ==> rounds[j].answered.as_nanos() - rounds[i].answered.as_nanos()
                > settings.watcher_timeout.as_nanos(),
{
    assert forall|j: int| 0 <= j < rounds.len() && warns(settings, #[trigger] rounds[j]) implies {
        &&& rounds[j].answered.as_nanos() - rounds[0].readied.as_nanos()
            > settings.watcher_timeout.as_nanos()
        &&& forall|i: int|
            0 <= i < j && warns(settings, #[trigger] rounds[i]) ==> rounds[j].answered.as_nanos()
                - rounds[i].answered.as_nanos() > settings.watcher_timeout.as_nanos()
    } by {
        let from = lemma_timer_start(settings, rounds, j);
        law_when_to_warn(settings, rounds, from, j);
        assert(rounds[0].readied.as_nanos() <= rounds[0].answered.as_nanos());
        assert(rounds[0].readied.as_nanos() <= rounds[from].readied.as_nanos());
    }
}

} // verus!
