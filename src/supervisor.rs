use vstd::prelude::*;
use crate::types::DaBlock;

verus! {

/// The fixed delay before a consumer restart, in seconds.
pub const RECONNECT_DELAY_SECS: u64 = 5;

/// Where the ingestion loop stands.
#[derive(Clone, Copy, Debug, PartialEq, Eq, Structural)]
pub enum Phase {
    /// About to (re)start the consumer and fetch its block stream.
    Starting,
    /// Reading the consumer's block stream.
    Streaming,
    /// Waiting out the delay before the next start.
    Backoff,
    /// Gave up after too many consecutive start failures.
    Stopped,
}

/// What happened since the last step.
#[derive(Clone, Copy, Debug)]
pub enum ConsumerEvent {
    /// The consumer's start failed.
    StartFailed,
    /// The consumer started and its block stream was fetched.
    Started,
    /// A DA block arrived on the stream.
    Block(DaBlock),
    /// The stream dropped this many blocks because the reader was slow.
    Lagged(u64),
    /// The stream closed.
    StreamClosed,
    /// The delay is over.
    DelayElapsed,
}

/// What the loop is to do next.
#[derive(Clone, Copy, Debug)]
pub enum SupervisorAction {
    /// Take the consumer, start it and fetch its block stream.
    StartConsumer,
    /// Wait for the next event of the block stream.
    ReadStream,
    /// Publish the block to the broker, then read on.
    Publish(DaBlock),
    /// Sleep this many seconds.
    Sleep(u64),
    /// Stop the loop.
    GiveUp,
}

/// The decisions of the ingestion loop that keeps the DA-block stream alive.
#[derive(Clone, Copy, Debug)]
pub struct Supervisor {
    pub phase: Phase,
    /// Delay before each restart, in seconds.
    pub backoff_secs: u64,
    /// Consecutive start failures after which the loop gives up; none: never.
    pub max_start_failures: Option<u64>,
    /// Start failures since the last successful start.
    pub start_failures: u64,
    /// Blocks reported dropped by the stream, in total.
    pub lagged: u64,
}

/// `a + b`, stopping at the largest value.
pub open spec fn sat_add(a: u64, b: u64) -> u64 {
    if a + b > u64::MAX {
        u64::MAX
    } else {
        (a + b) as u64
    }
}

/// The loop gives up once the consecutive failures reach the configured bound.
pub open spec fn exhausted(max: Option<u64>, failures: u64) -> bool {
    match max {
        Some(n) => failures >= n,
        None => false,
    }
}

/// The state after `e` and the action it calls for.
pub open spec fn next(s: Supervisor, e: ConsumerEvent) -> (Supervisor, SupervisorAction) {
    match (s.phase, e) {
        (Phase::Starting, ConsumerEvent::StartFailed) => {
            let f = sat_add(s.start_failures, 1);
            if exhausted(s.max_start_failures, f) {
                (Supervisor { phase: Phase::Stopped, start_failures: f, ..s }, SupervisorAction::GiveUp)
            } else {
                (Supervisor { phase: Phase::Backoff, start_failures: f, ..s }, SupervisorAction::Sleep(s.backoff_secs))
            }
        },
        (Phase::Starting, ConsumerEvent::Started) =>
            (Supervisor { phase: Phase::Streaming, start_failures: 0, ..s }, SupervisorAction::ReadStream),
        (Phase::Streaming, ConsumerEvent::Block(b)) => (s, SupervisorAction::Publish(b)),
        (Phase::Streaming, ConsumerEvent::Lagged(n)) =>
            (Supervisor { lagged: sat_add(s.lagged, n), ..s }, SupervisorAction::ReadStream),
        (Phase::Streaming, ConsumerEvent::StreamClosed) =>
            (Supervisor { phase: Phase::Backoff, ..s }, SupervisorAction::Sleep(s.backoff_secs)),
        (Phase::Backoff, ConsumerEvent::DelayElapsed) =>
            (Supervisor { phase: Phase::Starting, ..s }, SupervisorAction::StartConsumer),
        _ => (s, resume(s.phase, s.backoff_secs)),
    }
}

/// The action that a phase waits on, for an event that does not belong to it.
pub open spec fn resume(p: Phase, backoff_secs: u64) -> SupervisorAction {
    match p {
        Phase::Starting => SupervisorAction::StartConsumer,
        Phase::Streaming => SupervisorAction::ReadStream,
        Phase::Backoff => SupervisorAction::Sleep(backoff_secs),
        Phase::Stopped => SupervisorAction::GiveUp,
    }
}

fn saturating(a: u64, b: u64) -> (r: u64)
    ensures
        r == sat_add(a, b),
{
    if a > u64::MAX - b {
        u64::MAX
    } else {
        a + b
    }
}

impl Supervisor {
    /// A loop that starts the consumer first, restarts after `backoff_secs`
    /// and gives up after `max_start_failures` consecutive start failures,
    /// if given.
    pub fn new(backoff_secs: u64, max_start_failures: Option<u64>) -> (r: Supervisor)
        ensures
            r == (Supervisor { phase: Phase::Starting, backoff_secs, max_start_failures, start_failures: 0, lagged: 0 }),
    {
        Supervisor { phase: Phase::Starting, backoff_secs, max_start_failures, start_failures: 0, lagged: 0 }
    }

    /// The ingestion loop as the node runs it: a 5-second delay, no bound on
    /// retries, since no other source of DA confirmations exists.
    pub fn unbounded() -> (r: Supervisor)
        ensures
            r == (Supervisor { phase: Phase::Starting, backoff_secs: RECONNECT_DELAY_SECS, max_start_failures: None, start_failures: 0, lagged: 0 }),
    {
        Supervisor::new(RECONNECT_DELAY_SECS, None)
    }

    /// The first action of the loop.
    pub fn first_action(&self) -> (r: SupervisorAction)
        ensures
            r == resume(self.phase, self.backoff_secs),
    {
        match self.phase {
            Phase::Starting => SupervisorAction::StartConsumer,
            Phase::Streaming => SupervisorAction::ReadStream,
            Phase::Backoff => SupervisorAction::Sleep(self.backoff_secs),
            Phase::Stopped => SupervisorAction::GiveUp,
        }
    }

    /// Takes an event and returns the next action.
    pub fn step(&mut self, e: ConsumerEvent) -> (r: SupervisorAction)
        ensures
            (*final(self), r) == next(*old(self), e),
    {
        match (self.phase, e) {
            (Phase::Starting, ConsumerEvent::StartFailed) => {
                let f = saturating(self.start_failures, 1);
                self.start_failures = f;
                let give_up = match self.max_start_failures {
                    Some(n) => f >= n,
                    None => false,
                };
                if give_up {
                    self.phase = Phase::Stopped;
                    SupervisorAction::GiveUp
                } else {
                    self.phase = Phase::Backoff;
                    SupervisorAction::Sleep(self.backoff_secs)
                }
            },
            (Phase::Starting, ConsumerEvent::Started) => {
                self.phase = Phase::Streaming;
                self.start_failures = 0;
                SupervisorAction::ReadStream
            },
            (Phase::Streaming, ConsumerEvent::Block(b)) => SupervisorAction::Publish(b),
            (Phase::Streaming, ConsumerEvent::Lagged(n)) => {
                self.lagged = saturating(self.lagged, n);
                SupervisorAction::ReadStream
            },
            (Phase::Streaming, ConsumerEvent::StreamClosed) => {
                self.phase = Phase::Backoff;
                SupervisorAction::Sleep(self.backoff_secs)
            },
            (Phase::Backoff, ConsumerEvent::DelayElapsed) => {
                self.phase = Phase::Starting;
                SupervisorAction::StartConsumer
            },
            _ => self.first_action(),
        }
    }
}

/// Without a bound on retries the loop never gives up: a failed start is
/// followed by the configured delay and a new start, whatever number of
/// failures came before; a successful start leads to reading the stream.
pub proof fn lemma_retries_forever(s: Supervisor)
    requires
        s.phase == Phase::Starting,
        s.max_start_failures is None,
    ensures
        next(s, ConsumerEvent::StartFailed).1 == SupervisorAction::Sleep(s.backoff_secs),
        next(next(s, ConsumerEvent::StartFailed).0, ConsumerEvent::DelayElapsed) == (
            Supervisor { start_failures: sat_add(s.start_failures, 1), ..s },
            SupervisorAction::StartConsumer,
        ),
        next(s, ConsumerEvent::Started) == (
            Supervisor { phase: Phase::Streaming, start_failures: 0, ..s },
            SupervisorAction::ReadStream,
        ),
{
}

/// Ingestion goes on through lagged deliveries and restarts after a closed
/// stream: every block read from the stream is published, a lag only reads
/// on, and a closed stream leads to the delay and then a new start.
pub proof fn lemma_streaming_continues(s: Supervisor, b: DaBlock, n: u64)
    requires
        s.phase == Phase::Streaming,
    ensures
        next(s, ConsumerEvent::Block(b)) == (s, SupervisorAction::Publish(b)),
        next(s, ConsumerEvent::Lagged(n)).0.phase == Phase::Streaming,
        next(s, ConsumerEvent::Lagged(n)).1 == SupervisorAction::ReadStream,
        next(s, ConsumerEvent::StreamClosed).1 == SupervisorAction::Sleep(s.backoff_secs),
        next(next(s, ConsumerEvent::StreamClosed).0, ConsumerEvent::DelayElapsed).1
            == SupervisorAction::StartConsumer,
{
}

} // verus!
