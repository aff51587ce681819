use market_data::config::{parse_symbols, Config, Settings};
use market_data::error::MarketDataError;

fn settings() -> Settings {
    Settings {
        symbols: None,
        ws_endpoint: None,
        rest_endpoint: None,
        ipc_socket_path: None,
        depth_levels: None,
        reconnect_delay_ms: None,
        max_reconnect_attempts: None,
        health_check_interval_secs: None,
    }
}

#[test]
fn defaults_apply_where_nothing_is_given() {
    let config = Config::from_settings(&settings());
    assert_eq!(config.symbols, vec!["BTCUSDT".to_string(), "ETHUSDT".to_string()]);
    assert_eq!(config.ws_endpoint, "wss://stream.binance.com:9443/ws");
    assert_eq!(config.rest_endpoint, "https://api.binance.com/api/v3");
    assert_eq!(config.ipc_socket_path, "/tmp/quantumflow.sock");
    assert_eq!(config.depth_levels, 20);
    assert_eq!(config.reconnect_delay_ms, 1000);
    assert_eq!(config.max_reconnect_attempts, 10);
    assert_eq!(config.health_check_interval_secs, 30);
}

#[test]
fn default_config_has_one_symbol() {
    let config = Config::default();
    assert_eq!(config.symbols, vec!["BTCUSDT".to_string()]);
    assert_eq!(config.ws_endpoint, "wss://stream.binance.com:9443/ws");
    assert_eq!(config.rest_endpoint, "https://api.binance.com/api/v3");
    assert_eq!(config.ipc_socket_path, "/tmp/quantumflow.sock");
    assert_eq!(config.depth_levels, 20);
    assert_eq!(config.reconnect_delay_ms, 1000);
    assert_eq!(config.max_reconnect_attempts, 10);
    assert_eq!(config.health_check_interval_secs, 30);
}

#[test]
fn settings_override_defaults() {
    let mut given = settings();
    given.symbols = Some(" solusdt , Xrpusdt,BNBUSDT".to_string());
    given.ws_endpoint = Some("ws://localhost:1".to_string());
    given.rest_endpoint = Some("http://localhost:2".to_string());
    given.ipc_socket_path = Some("/run/x.sock".to_string());
    given.depth_levels = Some("100".to_string());
    given.reconnect_delay_ms = Some("250".to_string());
    given.max_reconnect_attempts = Some("+3".to_string());
    given.health_check_interval_secs = Some("007".to_string());
    let config = Config::from_settings(&given);
    assert_eq!(config.symbols, vec!["SOLUSDT".to_string(), "XRPUSDT".to_string(), "BNBUSDT".to_string()]);
    assert_eq!(config.ws_endpoint, "ws://localhost:1");
    assert_eq!(config.rest_endpoint, "http://localhost:2");
    assert_eq!(config.ipc_socket_path, "/run/x.sock");
    assert_eq!(config.depth_levels, 100);
    assert_eq!(config.reconnect_delay_ms, 250);
    assert_eq!(config.max_reconnect_attempts, 3);
    assert_eq!(config.health_check_interval_secs, 7);
}

#[test]
fn unreadable_numbers_fall_back() {
    let mut given = settings();
    given.depth_levels = Some("twenty".to_string());
    given.reconnect_delay_ms = Some("-5".to_string());
    given.max_reconnect_attempts = Some("4294967296".to_string());
    given.health_check_interval_secs = Some("".to_string());
    let config = Config::from_settings(&given);
    assert_eq!(config.depth_levels, 20);
    assert_eq!(config.reconnect_delay_ms, 1000);
    assert_eq!(config.max_reconnect_attempts, 10);
    assert_eq!(config.health_check_interval_secs, 30);
    let mut edge = settings();
    edge.max_reconnect_attempts = Some("4294967295".to_string());
    edge.reconnect_delay_ms = Some("18446744073709551615".to_string());
    edge.health_check_interval_secs = Some("18446744073709551616".to_string());
    edge.depth_levels = Some(" 5".to_string());
    let config = Config::from_settings(&edge);
    assert_eq!(config.max_reconnect_attempts, u32::MAX);
    assert_eq!(config.reconnect_delay_ms, u64::MAX);
    assert_eq!(config.health_check_interval_secs, 30);
    assert_eq!(config.depth_levels, 20);
}

#[test]
fn symbol_lists_are_split_trimmed_and_uppercased() {
    assert_eq!(parse_symbols("btcusdt"), vec!["BTCUSDT".to_string()]);
    assert_eq!(parse_symbols("a,b"), vec!["A".to_string(), "B".to_string()]);
    assert_eq!(parse_symbols(""), vec!["".to_string()]);
    assert_eq!(parse_symbols("a,,b,"), vec!["A".to_string(), "".to_string(), "B".to_string(), "".to_string()]);
    assert_eq!(parse_symbols(" \tx y\n, z "), vec!["X Y".to_string(), "Z".to_string()]);
}

#[test]
fn errors_describe_themselves() {
    let detail = || "boom".to_string();
    assert_eq!(MarketDataError::WebSocketConnection(detail()).message(), "WebSocket connection error: boom");
    assert_eq!(MarketDataError::WebSocketMessage(detail()).message(), "WebSocket message error: boom");
    assert_eq!(MarketDataError::ParseError(detail()).message(), "Failed to parse message: boom");
    assert_eq!(MarketDataError::OrderBookError(detail()).message(), "Order book error: boom");
    assert_eq!(MarketDataError::RestApiError(detail()).message(), "REST API error: boom");
    assert_eq!(MarketDataError::IpcError(detail()).message(), "IPC error: boom");
    assert_eq!(MarketDataError::ConfigError(detail()).message(), "Configuration error: boom");
    assert_eq!(MarketDataError::SerializationError(detail()).message(), "Serialization error: boom");
    assert_eq!(
        MarketDataError::SequenceMismatch { expected: 101, got: 18446744073709551615 }.message(),
        "Sequence number mismatch: expected 101, got 18446744073709551615"
    );
    assert_eq!(
        MarketDataError::SequenceMismatch { expected: 0, got: 7 }.message(),
        "Sequence number mismatch: expected 0, got 7"
    );
    assert_eq!(MarketDataError::ConnectionTimeout.message(), "Connection timeout");
    assert_eq!(MarketDataError::MaxReconnectAttemptsExceeded.message(), "Max reconnection attempts exceeded");
    assert_eq!(MarketDataError::ParseError(String::new()).message(), "Failed to parse message: ");
}
