use market_data::error::MarketDataError;
use market_data::websocket::manager::{
    backoff_delay, elapsed, KEEPALIVE_TIMEOUT_MS, MAX_BACKOFF_MS, RECONNECT_COOLDOWN_MS,
    RECV_TIMEOUT_MS,
};
use market_data::websocket::{
    event_after, Action, ConnectionState, Event, Frame, Inbound, Reception, RetryPolicy, WebSocketClient,
    WebSocketManager,
};

#[test]
fn backoff_doubles_up_to_six_times_and_is_capped() {
    assert_eq!(backoff_delay(1000, 0), 1000);
    assert_eq!(backoff_delay(1000, 1), 2000);
    assert_eq!(backoff_delay(1000, 2), 4000);
    assert_eq!(backoff_delay(1000, 5), 32000);
    assert_eq!(backoff_delay(1000, 6), 60000);
    assert_eq!(backoff_delay(1000, 7), 60000);
    assert_eq!(backoff_delay(1000, u32::MAX), 60000);
    assert_eq!(backoff_delay(100, 6), 6400);
    assert_eq!(backoff_delay(100, 60), 6400);
    assert_eq!(backoff_delay(0, 9), 0);
    assert_eq!(backoff_delay(937, 6), 59968);
    assert_eq!(backoff_delay(938, 6), 60000);
    assert_eq!(backoff_delay(60_000, 0), 60000);
    assert_eq!(backoff_delay(60_001, 0), 60000);
    assert_eq!(backoff_delay(u64::MAX, 6), MAX_BACKOFF_MS);
    assert_eq!(backoff_delay(u64::MAX / 2, 1), MAX_BACKOFF_MS);
}

#[test]
fn elapsed_time_never_goes_negative() {
    assert_eq!(elapsed(10, 25), 15);
    assert_eq!(elapsed(25, 25), 0);
    assert_eq!(elapsed(25, 10), 0);
    assert_eq!(elapsed(0, u64::MAX), u64::MAX);
}

fn streaming(at: u64) -> WebSocketManager {
    let mut manager = WebSocketManager::new(1000, RetryPolicy::Forever);
    assert_eq!(manager.handle(Event::RetryDue, at), Action::Connect);
    assert_eq!(manager.handle(Event::Connected, at), Action::FetchSnapshots);
    assert_eq!(manager.handle(Event::Synced, at), Action::Idle);
    assert_eq!(manager.state(), ConnectionState::Streaming);
    manager
}

#[test]
fn connection_goes_through_its_states() {
    let mut manager = WebSocketManager::new(1000, RetryPolicy::Forever);
    assert_eq!(manager.state(), ConnectionState::Disconnected);
    assert_eq!(manager.reconnect_attempts(), 0);
    assert_eq!(manager.handle(Event::RetryDue, 0), Action::Connect);
    assert_eq!(manager.state(), ConnectionState::Connecting);
    assert_eq!(manager.handle(Event::Connected, 5), Action::FetchSnapshots);
    assert_eq!(manager.state(), ConnectionState::Syncing);
    assert_eq!(manager.handle(Event::Frame, 6), Action::Idle);
    assert_eq!(manager.state(), ConnectionState::Syncing);
    assert_eq!(manager.handle(Event::Synced, 10), Action::Idle);
    assert_eq!(manager.state(), ConnectionState::Streaming);
    assert_eq!(manager.handle(Event::Failed, 20), Action::Backoff(2000));
    assert_eq!(manager.state(), ConnectionState::Disconnected);
    assert_eq!(manager.reconnect_attempts(), 1);
}

#[test]
fn events_that_do_not_fit_change_nothing() {
    let mut manager = WebSocketManager::new(1000, RetryPolicy::Forever);
    for event in [Event::Connected, Event::Synced, Event::Frame, Event::Tick, Event::PingFailed, Event::Failed] {
        assert_eq!(manager.handle(event, 1_000_000), Action::Idle);
        assert_eq!(manager.state(), ConnectionState::Disconnected);
        assert_eq!(manager.reconnect_attempts(), 0);
    }
    let mut manager = streaming(0);
    assert_eq!(manager.handle(Event::RetryDue, 1), Action::Idle);
    assert_eq!(manager.handle(Event::Connected, 1), Action::Idle);
    assert_eq!(manager.handle(Event::Synced, 1), Action::Idle);
    assert_eq!(manager.handle(Event::PingFailed, 1), Action::Idle);
    assert_eq!(manager.state(), ConnectionState::Streaming);
}

#[test]
fn failures_back_off_exponentially() {
    let mut manager = WebSocketManager::new(1000, RetryPolicy::Forever);
    let mut delays = Vec::new();
    for _ in 0..9 {
        assert_eq!(manager.handle(Event::RetryDue, 0), Action::Connect);
        match manager.handle(Event::Failed, 0) {
            Action::Backoff(delay) => delays.push(delay),
            other => panic!("expected a backoff, got {:?}", other),
        }
    }
    assert_eq!(delays, vec![2000, 4000, 8000, 16000, 32000, 60000, 60000, 60000, 60000]);
    assert_eq!(manager.reconnect_attempts(), 9);
}

#[test]
fn capped_retries_abort() {
    let mut manager = WebSocketManager::new(500, RetryPolicy::AtMost(2));
    assert_eq!(manager.handle(Event::RetryDue, 0), Action::Connect);
    assert_eq!(manager.handle(Event::Failed, 0), Action::Backoff(1000));
    assert_eq!(manager.handle(Event::RetryDue, 0), Action::Connect);
    assert_eq!(manager.handle(Event::Failed, 0), Action::Backoff(2000));
    assert_eq!(manager.handle(Event::RetryDue, 0), Action::Connect);
    assert_eq!(manager.handle(Event::Failed, 0), Action::Abort);
    assert_eq!(manager.reconnect_attempts(), 3);
    assert_eq!(RetryPolicy::from_limit(0), RetryPolicy::Forever);
    assert_eq!(RetryPolicy::from_limit(1), RetryPolicy::AtMost(1));
    assert_eq!(RetryPolicy::from_limit(u32::MAX), RetryPolicy::AtMost(u32::MAX));
    let mut none = WebSocketManager::new(500, RetryPolicy::AtMost(0));
    assert_eq!(none.handle(Event::RetryDue, 0), Action::Connect);
    assert_eq!(none.handle(Event::Failed, 0), Action::Abort);
}

#[test]
fn counter_is_reset_only_after_the_cooldown() {
    let mut manager = WebSocketManager::new(1000, RetryPolicy::Forever);
    assert_eq!(manager.handle(Event::RetryDue, 0), Action::Connect);
    assert_eq!(manager.handle(Event::Failed, 0), Action::Backoff(2000));
    assert_eq!(manager.handle(Event::RetryDue, 2000), Action::Connect);
    assert_eq!(manager.handle(Event::Connected, 2000), Action::FetchSnapshots);
    assert_eq!(manager.reconnect_attempts(), 1);
    assert_eq!(manager.handle(Event::Synced, 3000), Action::Idle);
    // entering the streaming state does not reset the counter
    assert_eq!(manager.reconnect_attempts(), 1);
    assert_eq!(manager.handle(Event::Frame, 3000 + RECONNECT_COOLDOWN_MS - 1), Action::Idle);
    assert_eq!(manager.reconnect_attempts(), 1);
    assert_eq!(manager.handle(Event::Frame, 3000 + RECONNECT_COOLDOWN_MS), Action::Idle);
    assert_eq!(manager.reconnect_attempts(), 0);
    // a failure before the cooldown keeps counting up
    let mut flaky = WebSocketManager::new(1000, RetryPolicy::Forever);
    for round in 0..3u64 {
        assert_eq!(flaky.handle(Event::RetryDue, round * 10), Action::Connect);
        assert_eq!(flaky.handle(Event::Connected, round * 10), Action::FetchSnapshots);
        assert_eq!(flaky.handle(Event::Synced, round * 10), Action::Idle);
        assert_eq!(flaky.handle(Event::Frame, round * 10 + 1), Action::Idle);
        assert_eq!(flaky.handle(Event::Failed, round * 10 + 2), Action::Backoff(1000 << (round + 1)));
    }
    assert_eq!(flaky.reconnect_attempts(), 3);
}

#[test]
fn tick_resets_the_counter_after_the_cooldown_too() {
    let mut manager = WebSocketManager::new(1000, RetryPolicy::Forever);
    assert_eq!(manager.handle(Event::RetryDue, 0), Action::Connect);
    assert_eq!(manager.handle(Event::Failed, 0), Action::Backoff(2000));
    assert_eq!(manager.handle(Event::RetryDue, 0), Action::Connect);
    assert_eq!(manager.handle(Event::Connected, 0), Action::FetchSnapshots);
    assert_eq!(manager.handle(Event::Synced, 0), Action::Idle);
    assert_eq!(manager.handle(Event::Frame, RECONNECT_COOLDOWN_MS - 10), Action::Idle);
    assert_eq!(manager.reconnect_attempts(), 1);
    assert_eq!(manager.handle(Event::Tick, RECONNECT_COOLDOWN_MS), Action::Idle);
    assert_eq!(manager.reconnect_attempts(), 0);
}

#[test]
fn silence_leads_to_ping_then_degraded_then_reconnect() {
    let mut manager = streaming(0);
    assert_eq!(manager.handle(Event::Tick, KEEPALIVE_TIMEOUT_MS - 1), Action::Idle);
    assert_eq!(manager.handle(Event::Tick, KEEPALIVE_TIMEOUT_MS), Action::SendPing);
    // one keepalive ping per silence
    assert_eq!(manager.handle(Event::Tick, KEEPALIVE_TIMEOUT_MS + 1000), Action::Idle);
    assert_eq!(manager.state(), ConnectionState::Streaming);
    assert_eq!(manager.handle(Event::Tick, RECV_TIMEOUT_MS), Action::SendPing);
    assert_eq!(manager.state(), ConnectionState::Degraded);
    assert_eq!(manager.handle(Event::Tick, 2 * RECV_TIMEOUT_MS - 1), Action::Idle);
    assert_eq!(manager.state(), ConnectionState::Degraded);
    assert_eq!(manager.handle(Event::Tick, 2 * RECV_TIMEOUT_MS), Action::Backoff(2000));
    assert_eq!(manager.state(), ConnectionState::Disconnected);
    assert_eq!(manager.reconnect_attempts(), 1);
}

#[test]
fn frame_recovers_a_degraded_connection() {
    let mut manager = streaming(0);
    assert_eq!(manager.handle(Event::Tick, RECV_TIMEOUT_MS), Action::SendPing);
    assert_eq!(manager.state(), ConnectionState::Degraded);
    assert_eq!(manager.handle(Event::Frame, RECV_TIMEOUT_MS + 5), Action::Idle);
    assert_eq!(manager.state(), ConnectionState::Streaming);
    assert_eq!(manager.reconnect_attempts(), 0);
    // the silence is counted from the frame
    assert_eq!(manager.handle(Event::Tick, RECV_TIMEOUT_MS + 5 + KEEPALIVE_TIMEOUT_MS - 1), Action::Idle);
    assert_eq!(manager.handle(Event::Tick, RECV_TIMEOUT_MS + 5 + KEEPALIVE_TIMEOUT_MS), Action::SendPing);
}

#[test]
fn failed_ping_matters_only_when_degraded() {
    let mut manager = streaming(0);
    assert_eq!(manager.handle(Event::Tick, KEEPALIVE_TIMEOUT_MS), Action::SendPing);
    assert_eq!(manager.handle(Event::PingFailed, KEEPALIVE_TIMEOUT_MS), Action::Idle);
    assert_eq!(manager.state(), ConnectionState::Streaming);
    assert_eq!(manager.handle(Event::Tick, RECV_TIMEOUT_MS), Action::SendPing);
    assert_eq!(manager.handle(Event::PingFailed, RECV_TIMEOUT_MS), Action::Backoff(2000));
    assert_eq!(manager.state(), ConnectionState::Disconnected);
}

#[test]
fn snapshot_failure_counts_as_a_stream_failure() {
    let mut manager = WebSocketManager::new(250, RetryPolicy::Forever);
    assert_eq!(manager.handle(Event::RetryDue, 0), Action::Connect);
    assert_eq!(manager.handle(Event::Connected, 0), Action::FetchSnapshots);
    assert_eq!(manager.handle(Event::Tick, 1_000_000), Action::Idle);
    assert_eq!(manager.handle(Event::Failed, 10), Action::Backoff(500));
    assert_eq!(manager.state(), ConnectionState::Disconnected);
}

#[test]
fn stream_url_lists_depth_and_trade_streams() {
    let client = WebSocketClient::new(
        "wss://stream.binance.com:9443/ws",
        vec!["BTCUSDT".to_string(), "EthUsdt".to_string()],
    );
    assert_eq!(
        client.stream_url(),
        "wss://stream.binance.com:9443/ws/stream?streams=btcusdt@depth@100ms/btcusdt@trade/ethusdt@depth@100ms/ethusdt@trade"
    );
    let single = WebSocketClient::new("ws://x", vec!["A".to_string()]);
    assert_eq!(single.stream_url(), "ws://x/stream?streams=a@depth@100ms/a@trade");
    let none = WebSocketClient::new("ws://x", vec![]);
    assert_eq!(none.stream_url(), "ws://x/stream?streams=");
}

#[test]
fn frames_are_sorted_by_kind() {
    let mut client = WebSocketClient::new("ws://x", vec![]);
    assert!(!client.is_connected());
    assert!(client.ping().is_none());
    assert!(matches!(
        client.recv(Inbound::Message(Frame::Text("x".to_string()))),
        Reception::Failed(MarketDataError::WebSocketConnection(detail)) if detail == "Not connected"
    ));
    client.connect(true);
    assert!(client.is_connected());
    assert_eq!(client.ping(), Some(vec![]));
    assert!(matches!(
        client.recv(Inbound::Message(Frame::Text("hello".to_string()))),
        Reception::Deliver(text) if text == "hello"
    ));
    assert!(matches!(
        client.recv(Inbound::Message(Frame::Binary(b"{\"a\":1}".to_vec()))),
        Reception::Deliver(text) if text == "{\"a\":1}"
    ));
    assert!(matches!(
        client.recv(Inbound::Message(Frame::Binary(vec![b'a', 0xff, b'b']))),
        Reception::Deliver(text) if text == "a\u{fffd}b"
    ));
    assert!(matches!(
        client.recv(Inbound::Message(Frame::Ping(vec![1, 2, 3]))),
        Reception::Reply(payload) if payload == vec![1, 2, 3]
    ));
    assert!(matches!(client.recv(Inbound::Message(Frame::Pong(vec![9]))), Reception::Nothing));
    assert!(matches!(client.recv(Inbound::Message(Frame::Raw)), Reception::Nothing));
    assert!(client.is_connected());
}

#[test]
fn close_error_and_end_leave_the_connection_closed() {
    let mut client = WebSocketClient::new("ws://x", vec![]);
    client.connect(true);
    assert!(matches!(
        client.recv(Inbound::Message(Frame::Close)),
        Reception::Failed(MarketDataError::WebSocketConnection(detail)) if detail == "Connection closed"
    ));
    assert!(!client.is_connected());
    client.connect(true);
    assert!(matches!(
        client.recv(Inbound::Error("reset by peer".to_string())),
        Reception::Failed(MarketDataError::WebSocketMessage(detail)) if detail == "reset by peer"
    ));
    assert!(!client.is_connected());
    client.connect(true);
    assert!(matches!(
        client.recv(Inbound::End),
        Reception::Failed(MarketDataError::WebSocketConnection(detail)) if detail == "Stream ended"
    ));
    assert!(!client.is_connected());
    client.connect(true);
    client.close();
    assert!(!client.is_connected());
    client.connect(false);
    assert!(!client.is_connected());
}

#[test]
fn only_a_failed_snapshot_tears_the_connection_down() {
    let detail = || "x".to_string();
    assert_eq!(event_after(&MarketDataError::RestApiError(detail())), Some(Event::Failed));
    assert_eq!(event_after(&MarketDataError::RestApiError(String::new())), Some(Event::Failed));
    for error in [
        MarketDataError::WebSocketConnection(detail()),
        MarketDataError::WebSocketMessage(detail()),
        MarketDataError::ParseError(detail()),
        MarketDataError::OrderBookError(detail()),
        MarketDataError::IpcError(detail()),
        MarketDataError::ConfigError(detail()),
        MarketDataError::SerializationError(detail()),
        MarketDataError::SequenceMismatch { expected: 1, got: 2 },
        MarketDataError::ConnectionTimeout,
        MarketDataError::MaxReconnectAttemptsExceeded,
    ] {
        assert_eq!(event_after(&error), None);
    }
}
