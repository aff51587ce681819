//! WebSocket connection manager
//!
//! Decides what the connection loop does next: when to connect, when to
//! fetch snapshots, when to send a keepalive ping, how long to wait before
//! a reconnect, and when to give up. The loop itself performs the action
//! and reports back what happened, with the time in milliseconds.

use crate::error::MarketDataError;
use vstd::prelude::*;

verus! {

/// Maximum backoff delay in milliseconds (60 seconds)
pub const MAX_BACKOFF_MS: u64 = 60_000;

/// Continuous streaming after which reconnect attempts are reset, in
/// milliseconds (5 minutes)
pub const RECONNECT_COOLDOWN_MS: u64 = 300_000;

/// Silence after which a keepalive ping is sent, in milliseconds
pub const KEEPALIVE_TIMEOUT_MS: u64 = 30_000;

/// Silence after which the connection counts as degraded, and further
/// silence after which it counts as lost, in milliseconds
pub const RECV_TIMEOUT_MS: u64 = 45_000;

/// The backoff doubles with each failed attempt up to this many times.
pub const MAX_DOUBLINGS: u32 = 6;

/// `2^n`.
pub open spec fn pow2(n: nat) -> int
    decreases n,
{
    if n == 0 {
        1
    } else {
        2 * pow2((n - 1) as nat)
    }
}

/// The delay before reconnect attempt `attempts`:
/// `min(base * 2^min(attempts, 6), 60 s)`.
pub open spec fn backoff_of(base_ms: u64, attempts: u32) -> int {
    let doublings = if attempts <= MAX_DOUBLINGS {
        attempts
    } else {
        MAX_DOUBLINGS
    };
    let delay = base_ms * pow2(doublings as nat);
    if delay <= MAX_BACKOFF_MS {
        delay
    } else {
        MAX_BACKOFF_MS as int
    }
}

/// The time from `since` to `now`; none where the clock went backwards.
pub open spec fn elapsed_of(since: u64, now: u64) -> int {
    if now >= since {
        now - since
    } else {
        0
    }
}

/// `2^n` grows with `n` and is at least 1.
pub proof fn lemma_pow2_grows(m: nat, n: nat)
    requires
        m <= n,
    ensures
        1 <= pow2(m) <= pow2(n),
    decreases n,
{
    if n > 0 {
        if m == n {
            lemma_pow2_grows((m - 1) as nat, (n - 1) as nat);
        } else {
            lemma_pow2_grows(m, (n - 1) as nat);
        }
    }
}

/// The backoff never exceeds 60 seconds, and never shrinks as attempts
/// fail.
pub proof fn lemma_backoff_bounds(base_ms: u64, fewer: u32, more: u32)
    requires
        fewer <= more,
    ensures
        0 <= backoff_of(base_ms, fewer) <= backoff_of(base_ms, more) <= MAX_BACKOFF_MS,
{
    let a: nat = if fewer <= MAX_DOUBLINGS { fewer as nat } else { MAX_DOUBLINGS as nat };
    let b: nat = if more <= MAX_DOUBLINGS { more as nat } else { MAX_DOUBLINGS as nat };
    lemma_pow2_grows(a, b);
    assert(0 <= base_ms * pow2(a) <= base_ms * pow2(b)) by (nonlinear_arith)
        requires
            1 <= pow2(a) <= pow2(b),
            0 <= base_ms,
    ;
}

/// The delay before reconnect attempt `attempts`.
pub fn backoff_delay(base_ms: u64, attempts: u32) -> (delay: u64)
    ensures
        delay == backoff_of(base_ms, attempts),
{
    let doublings = if attempts <= MAX_DOUBLINGS {
        attempts
    } else {
        MAX_DOUBLINGS
    };
    let mut delay = base_ms;
    let mut done: u32 = 0;
    while done < doublings
        invariant
            done <= doublings <= MAX_DOUBLINGS,
            doublings == if attempts <= MAX_DOUBLINGS {
                attempts
            } else {
                MAX_DOUBLINGS
            },
            delay <= MAX_BACKOFF_MS ==> delay == base_ms * pow2(done as nat),
            delay > MAX_BACKOFF_MS ==> base_ms * pow2(done as nat) > MAX_BACKOFF_MS,
        decreases doublings - done,
    {
        if delay > MAX_BACKOFF_MS {
            proof {
                lemma_pow2_grows(done as nat, doublings as nat);
                assert(base_ms * pow2(done as nat) <= base_ms * pow2(doublings as nat))
                    by (nonlinear_arith)
                    requires
                        pow2(done as nat) <= pow2(doublings as nat),
                        0 <= base_ms,
                ;
            }
            return MAX_BACKOFF_MS;
        }
        assert(base_ms * pow2((done + 1) as nat) == 2 * (base_ms * pow2(done as nat)))
            by (nonlinear_arith)
            requires
                pow2((done + 1) as nat) == 2 * pow2(done as nat),
        ;
        delay = delay * 2;
        done += 1;
    }
    if delay > MAX_BACKOFF_MS {
        MAX_BACKOFF_MS
    } else {
        delay
    }
}

/// The time from `since` to `now`.
pub fn elapsed(since: u64, now: u64) -> (r: u64)
    ensures
        r == elapsed_of(since, now),
{
    if now >= since {
        now - since
    } else {
        0
    }
}

/// Where the connection stands.
#[derive(Debug, Clone, Copy, PartialEq, Eq, Structural)]
pub enum ConnectionState {
    /// No connection; a reconnect is due after the backoff.
    Disconnected,
    /// The stream is being opened.
    Connecting,
    /// The stream is open; snapshots are being fetched.
    Syncing,
    /// Diffs are applied and published.
    Streaming,
    /// Nothing was received for too long; a ping is out.
    Degraded,
}

/// Whether reconnects are capped.
#[derive(Debug, Clone, Copy, PartialEq, Eq, Structural)]
pub enum RetryPolicy {
    /// Keep reconnecting, however often it fails.
    Forever,
    /// Give up once more than this many attempts have failed in a row.
    AtMost(u32),
}

impl RetryPolicy {
    /// The policy for a configured limit of attempts: a limit of zero
    /// stands for no limit.
    pub open spec fn of_limit(limit: u32) -> RetryPolicy {
        if limit == 0 {
            RetryPolicy::Forever
        } else {
            RetryPolicy::AtMost(limit)
        }
    }

    /// The policy for a configured limit of attempts: a limit of zero
    /// stands for no limit.
    pub fn from_limit(limit: u32) -> (policy: RetryPolicy)
        ensures
            policy == RetryPolicy::of_limit(limit),
    {
        if limit == 0 {
            RetryPolicy::Forever
        } else {
            RetryPolicy::AtMost(limit)
        }
    }
}

/// What the connection loop reports.
#[derive(Debug, Clone, Copy, PartialEq, Eq, Structural)]
pub enum Event {
    /// The backoff is over, or the loop starts.
    RetryDue,
    /// The stream was opened.
    Connected,
    /// Every configured symbol has its snapshot.
    Synced,
    /// A frame of any kind came in.
    Frame,
    /// Time has passed.
    Tick,
    /// A keepalive ping could not be sent.
    PingFailed,
    /// The stream could not be opened, was closed or failed, or a snapshot
    /// could not be fetched.
    Failed,
}

/// What an error met while a frame is dealt with means for the
/// connection: a snapshot that cannot be fetched or read counts as a
/// failure of the stream; any other error costs the frame only.
pub fn event_after(error: &MarketDataError) -> (r: Option<Event>)
    ensures
        r == (if error@ is RestApiError {
            Some(Event::Failed)
        } else {
            None::<Event>
        }),
{
    match error {
        MarketDataError::RestApiError(_) => Some(Event::Failed),
        _ => None,
    }
}

/// What the connection loop is to do next.
#[derive(Debug, Clone, Copy, PartialEq, Eq, Structural)]
pub enum Action {
    /// Go on as before.
    Idle,
    /// Open the stream.
    Connect,
    /// Fetch the snapshot of every configured symbol.
    FetchSnapshots,
    /// Send a keepalive ping.
    SendPing,
    /// Drop the connection and report [`Event::RetryDue`] after this many
    /// milliseconds.
    Backoff(u64),
    /// Drop the connection and stop: reconnecting failed too often.
    Abort,
}

/// What a [`WebSocketManager`] holds.
pub struct Supervision {
    pub base_delay_ms: u64,
    pub policy: RetryPolicy,
    pub state: ConnectionState,
    /// Failed attempts since the counter was last reset.
    pub reconnect_attempts: u32,
    /// When the stream last entered `Streaming`.
    pub streaming_since: u64,
    /// When a frame last came in.
    pub last_frame: u64,
    /// Whether a ping went out since a frame last came in.
    pub pinged: bool,
    /// When the stream last entered `Degraded`.
    pub degraded_since: u64,
}

impl Supervision {
    pub open spec fn initial(base_delay_ms: u64, policy: RetryPolicy) -> Supervision {
        Supervision {
            base_delay_ms,
            policy,
            state: ConnectionState::Disconnected,
            reconnect_attempts: 0,
            streaming_since: 0,
            last_frame: 0,
            pinged: false,
            degraded_since: 0,
        }
    }

    /// Whether one more failed attempt is one too many.
    pub open spec fn exhausted(self, attempts: u32) -> bool {
        self.policy matches RetryPolicy::AtMost(most) && attempts > most
    }

    /// The connection is lost: the attempt is counted and the backoff
    /// chosen by the count, or the loop is told to stop.
    pub open spec fn lost(self) -> (Supervision, Action) {
        let attempts = if self.reconnect_attempts < u32::MAX {
            (self.reconnect_attempts + 1) as u32
        } else {
            u32::MAX
        };
        let next = Supervision {
            state: ConnectionState::Disconnected,
            reconnect_attempts: attempts,
            pinged: false,
            ..self
        };
        if self.exhausted(attempts) {
            (next, Action::Abort)
        } else {
            (next, Action::Backoff(backoff_of(self.base_delay_ms, attempts) as u64))
        }
    }

    /// The counter of failed attempts at `now`: back to zero once the
    /// stream has been streaming for the cooldown without a break.
    pub open spec fn settled_attempts(self, now: u64) -> u32 {
        if elapsed_of(self.streaming_since, now) >= RECONNECT_COOLDOWN_MS {
            0
        } else {
            self.reconnect_attempts
        }
    }

    /// The next state and the action for an event that is reported at
    /// `now`. An event that does not fit the state changes nothing.
    pub open spec fn step(self, event: Event, now: u64) -> (Supervision, Action) {
        match (self.state, event) {
            (ConnectionState::Disconnected, Event::RetryDue) => (
                Supervision { state: ConnectionState::Connecting, ..self },
                Action::Connect,
            ),
            (ConnectionState::Connecting, Event::Connected) => (
                Supervision {
                    state: ConnectionState::Syncing,
                    last_frame: now,
                    pinged: false,
                    ..self
                },
                Action::FetchSnapshots,
            ),
            (ConnectionState::Syncing, Event::Synced) => (
                Supervision {
                    state: ConnectionState::Streaming,
                    streaming_since: now,
                    last_frame: now,
                    pinged: false,
                    ..self
                },
                Action::Idle,
            ),
            (ConnectionState::Syncing, Event::Frame) => (
                Supervision { last_frame: now, pinged: false, ..self },
                Action::Idle,
            ),
            (ConnectionState::Streaming, Event::Frame) | (ConnectionState::Degraded, Event::Frame) => (
                Supervision {
                    state: ConnectionState::Streaming,
                    reconnect_attempts: self.settled_attempts(now),
                    last_frame: now,
                    pinged: false,
                    ..self
                },
                Action::Idle,
            ),
            (ConnectionState::Streaming, Event::Tick) => {
                let silence = elapsed_of(self.last_frame, now);
                let settled = Supervision {
                    reconnect_attempts: self.settled_attempts(now),
                    ..self
                };
                if silence >= RECV_TIMEOUT_MS {
                    (
                        Supervision {
                            state: ConnectionState::Degraded,
                            degraded_since: now,
                            pinged: true,
                            ..settled
                        },
                        Action::SendPing,
                    )
                } else if silence >= KEEPALIVE_TIMEOUT_MS && !self.pinged {
                    (Supervision { pinged: true, ..settled }, Action::SendPing)
                } else {
                    (settled, Action::Idle)
                }
            },
            (ConnectionState::Degraded, Event::Tick) => {
                if elapsed_of(self.degraded_since, now) >= RECV_TIMEOUT_MS {
                    self.lost()
                } else {
                    (self, Action::Idle)
                }
            },
            (ConnectionState::Degraded, Event::PingFailed) => self.lost(),
            (ConnectionState::Connecting, Event::Failed)
            | (ConnectionState::Syncing, Event::Failed)
            | (ConnectionState::Streaming, Event::Failed)
            | (ConnectionState::Degraded, Event::Failed) => self.lost(),
            _ => (self, Action::Idle),
        }
    }
}

/// Entering `Streaming` does not reset the counter of failed attempts; an
/// event resets it only where the stream has been streaming for the
/// cooldown without a break.
pub proof fn lemma_counter_reset_needs_cooldown(before: Supervision, event: Event, now: u64)
    ensures
        ({
            let (after, action) = before.step(event, now);
            &&& event == Event::Synced ==> after.reconnect_attempts == before.reconnect_attempts
            &&& after.reconnect_attempts < before.reconnect_attempts ==> {
                &&& after.reconnect_attempts == 0
                &&& after.state == ConnectionState::Streaming || after.state
                    == ConnectionState::Degraded
                &&& elapsed_of(before.streaming_since, now) >= RECONNECT_COOLDOWN_MS
            }
        }),
{
}

/// Silence leads to a ping after the keepalive timeout, to `Degraded` after
/// the receive timeout, and from `Degraded` to a reconnect or a stop after
/// a further receive timeout without a frame.
pub proof fn lemma_silence_is_noticed(before: Supervision, now: u64)
    ensures
        before.state == ConnectionState::Streaming && elapsed_of(before.last_frame, now)
            >= RECV_TIMEOUT_MS ==> before.step(Event::Tick, now).0.state
            == ConnectionState::Degraded && before.step(Event::Tick, now).1 == Action::SendPing,
        before.state == ConnectionState::Streaming && !before.pinged && elapsed_of(
            before.last_frame,
            now,
        ) >= KEEPALIVE_TIMEOUT_MS ==> before.step(Event::Tick, now).1 == Action::SendPing,
        before.state == ConnectionState::Degraded && elapsed_of(before.degraded_since, now)
            >= RECV_TIMEOUT_MS ==> before.step(Event::Tick, now).0.state
            == ConnectionState::Disconnected && before.step(Event::Tick, now).1 != Action::Idle,
{
}

/// Every backoff that is handed out is at most 60 seconds, and a stop is
/// handed out only under a cap that the failed attempts have passed.
pub proof fn lemma_actions_bounded(before: Supervision, event: Event, now: u64)
    ensures
        before.step(event, now).1 matches Action::Backoff(delay) ==> delay <= MAX_BACKOFF_MS,
        before.step(event, now).1 == Action::Abort ==> before.policy is AtMost,
{
    let attempts = before.lost().0.reconnect_attempts;
    lemma_backoff_bounds(before.base_delay_ms, attempts, attempts);
}

/// Manages WebSocket connections with automatic reconnection
#[derive(Debug, Clone, Copy)]
pub struct WebSocketManager {
    base_delay_ms: u64,
    policy: RetryPolicy,
    state: ConnectionState,
    reconnect_attempts: u32,
    streaming_since: u64,
    last_frame: u64,
    pinged: bool,
    degraded_since: u64,
}

impl View for WebSocketManager {
    type V = Supervision;

    closed spec fn view(&self) -> Supervision {
        Supervision {
            base_delay_ms: self.base_delay_ms,
            policy: self.policy,
            state: self.state,
            reconnect_attempts: self.reconnect_attempts,
            streaming_since: self.streaming_since,
            last_frame: self.last_frame,
            pinged: self.pinged,
            degraded_since: self.degraded_since,
        }
    }
}

impl WebSocketManager {
    /// Create a new WebSocket manager
    pub fn new(base_delay_ms: u64, policy: RetryPolicy) -> (manager: WebSocketManager)
        ensures
            manager@ == Supervision::initial(base_delay_ms, policy),
    {
        WebSocketManager {
            base_delay_ms,
            policy,
            state: ConnectionState::Disconnected,
            reconnect_attempts: 0,
            streaming_since: 0,
            last_frame: 0,
            pinged: false,
            degraded_since: 0,
        }
    }

    /// Where the connection stands.
    pub fn state(&self) -> (r: ConnectionState)
        ensures
            r == self@.state,
    {
        self.state
    }

    /// Failed attempts since the counter was last reset.
    pub fn reconnect_attempts(&self) -> (r: u32)
        ensures
            r == self@.reconnect_attempts,
    {
        self.reconnect_attempts
    }

    /// Counts a lost connection and chooses the backoff, or gives up.
    fn lose(&mut self) -> (action: Action)
        ensures
            (final(self)@, action) == old(self)@.lost(),
    {
        if self.reconnect_attempts < u32::MAX {
            self.reconnect_attempts += 1;
        }
        self.state = ConnectionState::Disconnected;
        self.pinged = false;
        let exhausted = match self.policy {
            RetryPolicy::AtMost(most) => self.reconnect_attempts > most,
            RetryPolicy::Forever => false,
        };
        if exhausted {
            Action::Abort
        } else {
            proof {
                lemma_backoff_bounds(
                    self.base_delay_ms,
                    self.reconnect_attempts,
                    self.reconnect_attempts,
                );
            }
            Action::Backoff(backoff_delay(self.base_delay_ms, self.reconnect_attempts))
        }
    }

    /// Resets the counter of failed attempts once the stream has been
    /// streaming for the cooldown.
    fn settle(&mut self, now_ms: u64)
        ensures
            final(self)@ == (Supervision {
                reconnect_attempts: old(self)@.settled_attempts(now_ms),
                ..old(self)@
            }),
    {
        if elapsed(self.streaming_since, now_ms) >= RECONNECT_COOLDOWN_MS {
            self.reconnect_attempts = 0;
        }
    }

    /// Takes in what the connection loop reports at `now_ms` and says what
    /// it is to do next.
    pub fn handle(&mut self, event: Event, now_ms: u64) -> (action: Action)
        ensures
            (final(self)@, action) == old(self)@.step(event, now_ms),
    {
        match (self.state, event) {
            (ConnectionState::Disconnected, Event::RetryDue) => {
                self.state = ConnectionState::Connecting;
                Action::Connect
            },
            (ConnectionState::Connecting, Event::Connected) => {
                self.state = ConnectionState::Syncing;
                self.last_frame = now_ms;
                self.pinged = false;
                Action::FetchSnapshots
            },
            (ConnectionState::Syncing, Event::Synced) => {
                self.state = ConnectionState::Streaming;
                self.streaming_since = now_ms;
                self.last_frame = now_ms;
                self.pinged = false;
                Action::Idle
            },
            (ConnectionState::Syncing, Event::Frame) => {
                self.last_frame = now_ms;
                self.pinged = false;
                Action::Idle
            },
            (ConnectionState::Streaming, Event::Frame) | (ConnectionState::Degraded, Event::Frame) => {
                self.settle(now_ms);
                self.state = ConnectionState::Streaming;
                self.last_frame = now_ms;
                self.pinged = false;
                Action::Idle
            },
            (ConnectionState::Streaming, Event::Tick) => {
                let silence = elapsed(self.last_frame, now_ms);
                let pinged = self.pinged;
                self.settle(now_ms);
                if silence >= RECV_TIMEOUT_MS {
                    self.state = ConnectionState::Degraded;
                    self.degraded_since = now_ms;
                    self.pinged = true;
                    Action::SendPing
                } else if silence >= KEEPALIVE_TIMEOUT_MS && !pinged {
                    self.pinged = true;
                    Action::SendPing
                } else {
                    Action::Idle
                }
            },
            (ConnectionState::Degraded, Event::Tick) => {
                if elapsed(self.degraded_since, now_ms) >= RECV_TIMEOUT_MS {
                    self.lose()
                } else {
                    Action::Idle
                }
            },
            (ConnectionState::Degraded, Event::PingFailed) => self.lose(),
            (ConnectionState::Connecting, Event::Failed)
            | (ConnectionState::Syncing, Event::Failed)
            | (ConnectionState::Streaming, Event::Failed)
            | (ConnectionState::Degraded, Event::Failed) => self.lose(),
            _ => Action::Idle,
        }
    }
}

} // verus!
