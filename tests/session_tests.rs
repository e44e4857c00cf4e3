use global_price_index::config::ExchangeConfig;
use global_price_index::session::{ControlFrame, Phase, Session, SessionAction, SessionEvent};

fn config(retries: u32) -> ExchangeConfig {
    ExchangeConfig {
        initial_reconnect_delay: 1,
        ping_interval: 30,
        max_reconnect_delay: 300,
        ping_retry_count: retries,
    }
}

fn streaming(c: &ExchangeConfig, now: u64) -> Session {
    let mut s = Session::new(c, now);
    assert_eq!(s.step(SessionEvent::Connected { now }, c), SessionAction::StartStreaming);
    s
}

#[test]
fn connects_then_streams() {
    let c = config(3);
    let s = streaming(&c, 1_000);
    assert_eq!(s.phase, Phase::Streaming);
    assert_eq!(s.last_pong, 1_000);
}

#[test]
fn backoff_doubles_up_to_the_cap_and_resets_on_connect() {
    let c = config(3);
    let mut s = Session::new(&c, 0);
    let mut waits = vec![];
    for _ in 0..12 {
        match s.step(SessionEvent::ConnectFailed, &c) {
            SessionAction::Wait { secs } => waits.push(secs),
            other => panic!("unexpected {:?}", other),
        }
        assert_eq!(s.step(SessionEvent::BackoffElapsed, &c), SessionAction::Connect);
    }
    assert_eq!(waits, vec![1, 2, 4, 8, 16, 32, 64, 128, 256, 300, 300, 300]);
    assert_eq!(s.reconnect_attempt, 12);
    assert_eq!(s.step(SessionEvent::Connected { now: 5 }, &c), SessionAction::StartStreaming);
    assert_eq!(s.reconnect_delay, 1);
    assert_eq!(s.reconnect_attempt, 0);
}

#[test]
fn close_leads_to_reconnect_with_current_delay() {
    let c = config(3);
    let mut s = streaming(&c, 0);
    assert_eq!(s.step(SessionEvent::Closed, &c), SessionAction::Wait { secs: 1 });
    assert_eq!(s.phase, Phase::Reconnecting);
    assert_eq!(s.step(SessionEvent::BackoffElapsed, &c), SessionAction::Connect);
    assert_eq!(s.phase, Phase::Connecting);
    assert_eq!(s.reconnect_delay, 2);
}

#[test]
fn ping_is_answered_with_pong() {
    let c = config(3);
    let mut s = streaming(&c, 0);
    assert_eq!(s.step(SessionEvent::PingReceived, &c), SessionAction::Send { frame: ControlFrame::Pong });
    assert_eq!(s.step(SessionEvent::SendSucceeded, &c), SessionAction::Idle);
    assert_eq!(s.sending, None);
}

#[test]
fn send_is_retried_then_connection_dropped() {
    let c = config(3);
    let mut s = streaming(&c, 0);
    assert_eq!(s.step(SessionEvent::PingReceived, &c), SessionAction::Send { frame: ControlFrame::Pong });
    assert_eq!(
        s.step(SessionEvent::SendFailed, &c),
        SessionAction::RetrySend { frame: ControlFrame::Pong, millis: 100 }
    );
    assert_eq!(
        s.step(SessionEvent::SendFailed, &c),
        SessionAction::RetrySend { frame: ControlFrame::Pong, millis: 100 }
    );
    assert_eq!(s.step(SessionEvent::SendFailed, &c), SessionAction::Wait { secs: 1 });
    assert_eq!(s.phase, Phase::Reconnecting);
}

#[test]
fn zero_retries_drops_connection_at_once() {
    let c = config(0);
    let mut s = streaming(&c, 0);
    assert_eq!(s.step(SessionEvent::Tick { now: 1 }, &c), SessionAction::Wait { secs: 1 });
    assert_eq!(s.phase, Phase::Reconnecting);
}

#[test]
fn tick_sends_ping_while_pongs_are_fresh() {
    let c = config(3);
    let mut s = streaming(&c, 0);
    assert_eq!(s.step(SessionEvent::Tick { now: 60_000 }, &c), SessionAction::Send { frame: ControlFrame::Ping });
    assert_eq!(s.step(SessionEvent::SendSucceeded, &c), SessionAction::Idle);
    assert_eq!(s.step(SessionEvent::PongReceived { now: 61_000 }, &c), SessionAction::Idle);
    assert_eq!(s.last_pong, 61_000);
    assert_eq!(s.step(SessionEvent::Tick { now: 121_000 }, &c), SessionAction::Send { frame: ControlFrame::Ping });
}

#[test]
fn tick_drops_connection_when_pong_is_overdue() {
    let c = config(3);
    let mut s = streaming(&c, 0);
    assert_eq!(s.step(SessionEvent::Tick { now: 60_001 }, &c), SessionAction::Wait { secs: 1 });
    assert_eq!(s.phase, Phase::Reconnecting);
}

#[test]
fn out_of_phase_events_are_ignored() {
    let c = config(3);
    let mut s = Session::new(&c, 0);
    let before = s;
    assert_eq!(s.step(SessionEvent::Tick { now: 99 }, &c), SessionAction::Idle);
    assert_eq!(s.step(SessionEvent::BackoffElapsed, &c), SessionAction::Idle);
    assert_eq!(s, before);
}

#[test]
fn new_session_is_about_to_connect() {
    let c = config(3);
    let s = Session::new(&c, 123);
    assert_eq!(s.phase, Phase::Connecting);
    assert_eq!(s.reconnect_delay, 1);
    assert_eq!(s.reconnect_attempt, 0);
    assert_eq!(s.last_pong, 123);
    assert_eq!(s.sending, None);
    assert_eq!(s.failed_sends, 0);
}

#[test]
fn initial_delay_above_the_cap_is_capped_after_first_wait() {
    let c = ExchangeConfig { initial_reconnect_delay: 500, ping_interval: 30, max_reconnect_delay: 300, ping_retry_count: 3 };
    let mut s = Session::new(&c, 0);
    assert_eq!(s.step(SessionEvent::ConnectFailed, &c), SessionAction::Wait { secs: 500 });
    assert_eq!(s.step(SessionEvent::BackoffElapsed, &c), SessionAction::Connect);
    assert_eq!(s.step(SessionEvent::ConnectFailed, &c), SessionAction::Wait { secs: 300 });
}
