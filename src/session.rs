//! The streaming session's decisions: connecting, reconnecting with exponential
//! backoff, and the ping/pong keepalive with bounded send retries. The caller
//! performs each returned action and reports its outcome as the next event.
use vstd::prelude::*;
use crate::config::ExchangeConfig;

verus! {

/// Pause between two attempts to send a control frame, in milliseconds.
pub const SEND_RETRY_DELAY_MS: u64 = 100;

/// Where the session stands.
#[derive(Clone, Copy, Debug, PartialEq, Eq, Structural)]
pub enum Phase {
    /// A connection attempt is under way.
    Connecting,
    /// Connected: frames are read and the keepalive ticker runs.
    Streaming,
    /// Waiting out the backoff delay before the next connection attempt.
    Reconnecting,
}

/// A control frame sent by the session.
#[derive(Clone, Copy, Debug, PartialEq, Eq, Structural)]
pub enum ControlFrame {
    Ping,
    Pong,
}

/// What happened since the last step.
#[derive(Clone, Copy, Debug, PartialEq, Eq, Structural)]
pub enum SessionEvent {
    /// The connection was opened at `now` (milliseconds since the epoch).
    Connected { now: u64 },
    /// The connection attempt failed.
    ConnectFailed,
    /// The backoff delay has passed.
    BackoffElapsed,
    /// The peer sent a ping.
    PingReceived,
    /// The peer sent a pong at `now`.
    PongReceived { now: u64 },
    /// The keepalive ticker fired at `now`.
    Tick { now: u64 },
    /// The control frame being sent went out.
    SendSucceeded,
    /// Sending the control frame failed.
    SendFailed,
    /// The peer closed the connection, or reading from it failed.
    Closed,
}

/// What the caller does next.
#[derive(Clone, Copy, Debug, PartialEq, Eq, Structural)]
pub enum SessionAction {
    /// Open a connection, then report `Connected` or `ConnectFailed`.
    Connect,
    /// Start reading frames and the keepalive ticker.
    StartStreaming,
    /// Drop the connection if any, wait `secs` seconds, then report `BackoffElapsed`.
    Wait { secs: u64 },
    /// Send the frame, then report `SendSucceeded` or `SendFailed`.
    Send { frame: ControlFrame },
    /// Wait `millis` milliseconds, send the frame again and report the outcome.
    RetrySend { frame: ControlFrame, millis: u64 },
    /// Nothing to do.
    Idle,
}

/// The state of one streaming session.
#[derive(Clone, Copy, Debug, PartialEq, Eq, Structural)]
pub struct Session {
    pub phase: Phase,
    /// The next backoff delay, in seconds.
    pub reconnect_delay: u64,
    /// Connection attempts since the last successful connection.
    pub reconnect_attempt: u64,
    /// When the last pong (or the connection) was seen, in milliseconds since the epoch.
    pub last_pong: u64,
    /// The control frame being sent, if any.
    pub sending: Option<ControlFrame>,
    /// Failed attempts to send that frame.
    pub failed_sends: u32,
}

/// The backoff delay after `delay`: doubled, capped at `max`.
pub open spec fn next_delay(delay: u64, max: u64) -> u64 {
    if 2 * delay < max {
        (2 * delay) as u64
    } else {
        max
    }
}

/// Whether a tick at `now` finds the last pong older than twice the ping interval
/// (a pong stamped after `now` counts as fresh).
pub open spec fn pong_overdue(last_pong: u64, now: u64, ping_interval: u64) -> bool {
    now > last_pong && now - last_pong > 2000 * ping_interval
}

/// The session after the connection is dropped, and the action that goes with it.
pub open spec fn dropped(s: Session) -> (Session, SessionAction) {
    (
        Session { phase: Phase::Reconnecting, sending: None, failed_sends: 0, ..s },
        SessionAction::Wait { secs: s.reconnect_delay },
    )
}

/// The session starting to send `frame`, or dropping the connection when no
/// attempt is allowed.
pub open spec fn start_send(s: Session, frame: ControlFrame, c: ExchangeConfig) -> (
    Session,
    SessionAction,
) {
    if c.ping_retry_count == 0 {
        dropped(s)
    } else {
        (Session { sending: Some(frame), failed_sends: 0, ..s }, SessionAction::Send { frame })
    }
}

/// One step of the session: the next state and the action, given an event.
/// Events that do not fit the current phase change nothing.
pub open spec fn step_spec(s: Session, e: SessionEvent, c: ExchangeConfig) -> (
    Session,
    SessionAction,
) {
    match (s.phase, e) {
        (Phase::Connecting, SessionEvent::Connected { now }) => (
            Session {
                phase: Phase::Streaming,
                reconnect_delay: c.initial_reconnect_delay,
                reconnect_attempt: 0,
                last_pong: now,
                sending: None,
                failed_sends: 0,
            },
            SessionAction::StartStreaming,
        ),
        (Phase::Connecting, SessionEvent::ConnectFailed) => dropped(s),
        (Phase::Reconnecting, SessionEvent::BackoffElapsed) => (
            Session {
                phase: Phase::Connecting,
                reconnect_delay: next_delay(s.reconnect_delay, c.max_reconnect_delay),
                reconnect_attempt: if s.reconnect_attempt < u64::MAX {
                    (s.reconnect_attempt + 1) as u64
                } else {
                    s.reconnect_attempt
                },
                ..s
            },
            SessionAction::Connect,
        ),
        (Phase::Streaming, SessionEvent::Closed) => dropped(s),
        (Phase::Streaming, SessionEvent::PongReceived { now }) => (
            Session { last_pong: now, ..s },
            SessionAction::Idle,
        ),
        (Phase::Streaming, SessionEvent::PingReceived) => if s.sending is None {
            start_send(s, ControlFrame::Pong, c)
        } else {
            (s, SessionAction::Idle)
        },
        (Phase::Streaming, SessionEvent::Tick { now }) => if s.sending is Some {
            (s, SessionAction::Idle)
        } else if pong_overdue(s.last_pong, now, c.ping_interval) {
            dropped(s)
        } else {
            start_send(s, ControlFrame::Ping, c)
        },
        (Phase::Streaming, SessionEvent::SendSucceeded) => if s.sending is Some {
            (Session { sending: None, failed_sends: 0, ..s }, SessionAction::Idle)
        } else {
            (s, SessionAction::Idle)
        },
        (Phase::Streaming, SessionEvent::SendFailed) => match s.sending {
            Some(frame) => if s.failed_sends + 1 >= c.ping_retry_count {
                dropped(s)
            } else {
                (
                    Session { failed_sends: (s.failed_sends + 1) as u32, ..s },
                    SessionAction::RetrySend { frame, millis: SEND_RETRY_DELAY_MS },
                )
            },
            None => (s, SessionAction::Idle),
        },
        _ => (s, SessionAction::Idle),
    }
}

/// The state in which the session starts: about to connect for the first time.
pub open spec fn initial_spec(c: ExchangeConfig, now: u64) -> Session {
    Session {
        phase: Phase::Connecting,
        reconnect_delay: c.initial_reconnect_delay,
        reconnect_attempt: 0,
        last_pong: now,
        sending: None,
        failed_sends: 0,
    }
}

/// Consistency of a session: a frame is being sent only while streaming and with
/// fewer failed attempts than allowed, and the backoff delay never exceeds the
/// larger of the initial and the maximum delay.
pub open spec fn session_wf(s: Session, c: ExchangeConfig) -> bool {
    &&& s.sending is Some ==> s.phase == Phase::Streaming && s.failed_sends < c.ping_retry_count
    &&& s.sending is None ==> s.failed_sends == 0
    &&& s.reconnect_delay <= if c.initial_reconnect_delay < c.max_reconnect_delay {
        c.max_reconnect_delay
    } else {
        c.initial_reconnect_delay
    }
}

impl Session {
    /// A new session, about to connect.
    pub fn new(config: &ExchangeConfig, now: u64) -> (r: Session)
        ensures
            r == initial_spec(*config, now),
            session_wf(r, *config),
    {
        Session {
            phase: Phase::Connecting,
            reconnect_delay: config.initial_reconnect_delay,
            reconnect_attempt: 0,
            last_pong: now,
            sending: None,
            failed_sends: 0,
        }
    }

    fn drop_connection(&mut self) -> (a: SessionAction)
        ensures
            (*final(self), a) == dropped(*old(self)),
    {
        self.phase = Phase::Reconnecting;
        self.sending = None;
        self.failed_sends = 0;
        SessionAction::Wait { secs: self.reconnect_delay }
    }

    fn begin_send(&mut self, frame: ControlFrame, config: &ExchangeConfig) -> (a: SessionAction)
        ensures
            (*final(self), a) == start_send(*old(self), frame, *config),
    {
        if config.ping_retry_count == 0 {
            self.drop_connection()
        } else {
            self.sending = Some(frame);
            self.failed_sends = 0;
            SessionAction::Send { frame }
        }
    }

    /// Advances the session by one event and returns what to do next. The
    /// backoff delay is reset only by a successful connection, doubles (up to the
    /// configured maximum) before each new attempt, and the session never gives up.
    pub fn step(&mut self, event: SessionEvent, config: &ExchangeConfig) -> (a: SessionAction)
        requires
            session_wf(*old(self), *config),
        ensures
            (*final(self), a) == step_spec(*old(self), event, *config),
            session_wf(*final(self), *config),
    {
        match (self.phase, event) {
            (Phase::Connecting, SessionEvent::Connected { now }) => {
                self.phase = Phase::Streaming;
                self.reconnect_delay = config.initial_reconnect_delay;
                self.reconnect_attempt = 0;
                self.last_pong = now;
                self.sending = None;
                self.failed_sends = 0;
                SessionAction::StartStreaming
            },
            (Phase::Connecting, SessionEvent::ConnectFailed) => self.drop_connection(),
            (Phase::Reconnecting, SessionEvent::BackoffElapsed) => {
                let doubled: u128 = 2 * (self.reconnect_delay as u128);
                self.reconnect_delay = if doubled < config.max_reconnect_delay as u128 {
                    doubled as u64
                } else {
                    config.max_reconnect_delay
                };
                if self.reconnect_attempt < u64::MAX {
                    self.reconnect_attempt = self.reconnect_attempt + 1;
                }
                self.phase = Phase::Connecting;
                SessionAction::Connect
            },
            (Phase::Streaming, SessionEvent::Closed) => self.drop_connection(),
            (Phase::Streaming, SessionEvent::PongReceived { now }) => {
                self.last_pong = now;
                SessionAction::Idle
            },
            (Phase::Streaming, SessionEvent::PingReceived) => {
                if self.sending.is_none() {
                    self.begin_send(ControlFrame::Pong, config)
                } else {
                    SessionAction::Idle
                }
            },
            (Phase::Streaming, SessionEvent::Tick { now }) => {
                if self.sending.is_some() {
                    SessionAction::Idle
                } else if now > self.last_pong && (now - self.last_pong) as u128 > 2000
                    * config.ping_interval as u128 {
                    self.drop_connection()
                } else {
                    self.begin_send(ControlFrame::Ping, config)
                }
            },
            (Phase::Streaming, SessionEvent::SendSucceeded) => {
                if self.sending.is_some() {
                    self.sending = None;
                    self.failed_sends = 0;
                }
                SessionAction::Idle
            },
            (Phase::Streaming, SessionEvent::SendFailed) => {
                match self.sending {
                    Some(frame) => {
                        if self.failed_sends as u64 + 1 >= config.ping_retry_count as u64 {
                            self.drop_connection()
                        } else {
                            self.failed_sends = self.failed_sends + 1;
                            SessionAction::RetrySend { frame, millis: SEND_RETRY_DELAY_MS }
                        }
                    },
                    None => SessionAction::Idle,
                }
            },
            _ => SessionAction::Idle,
        }
    }
}

} // verus!
