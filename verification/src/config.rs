//! Configuration module for the market data handler
//!
//! Every setting is optional: what the environment does not give, or gives
//! in a form that cannot be read, falls back to its default.

use crate::text::{
    number_of_text, parse_number, pieces_of, split_text, texts, trimmed, trimmed_of, uppercase,
    uppercase_of,
};
use vstd::prelude::*;
use vstd::string::StringExecFns;

verus! {

/// Application configuration
#[derive(Debug, Clone)]
pub struct Config {
    /// Trading symbols to subscribe to (e.g., ["BTCUSDT", "ETHUSDT"])
    pub symbols: Vec<String>,
    /// WebSocket endpoint for Binance
    pub ws_endpoint: String,
    /// REST API endpoint for snapshots
    pub rest_endpoint: String,
    /// IPC socket path for publishing data
    pub ipc_socket_path: String,
    /// Order book depth levels to maintain
    pub depth_levels: usize,
    /// Reconnection settings
    pub reconnect_delay_ms: u64,
    pub max_reconnect_attempts: u32,
    /// Health check interval in seconds
    pub health_check_interval_secs: u64,
}

/// The settings as the environment gives them, each under the name of its
/// variable.
#[derive(Debug, Clone)]
pub struct Settings {
    pub symbols: Option<String>,
    pub ws_endpoint: Option<String>,
    pub rest_endpoint: Option<String>,
    pub ipc_socket_path: Option<String>,
    pub depth_levels: Option<String>,
    pub reconnect_delay_ms: Option<String>,
    pub max_reconnect_attempts: Option<String>,
    pub health_check_interval_secs: Option<String>,
}

/// The symbols that a comma-separated list names: each piece without the
/// white space around it, in upper case.
pub open spec fn symbols_of(list: Seq<char>) -> Seq<Seq<char>> {
    pieces_of(list, ',').map_values(|piece: Seq<char>| uppercase_of(trimmed_of(piece)))
}

/// A text setting: what is given, or the default.
pub open spec fn text_or(given: Option<String>, default: Seq<char>) -> Seq<char> {
    match given {
        Some(text) => text@,
        None => default,
    }
}

/// A number setting: the number that is given, where one is given that is
/// at most `limit`, or the default.
pub open spec fn number_or(given: Option<String>, default: u64, limit: u64) -> u64 {
    match given {
        Some(text) => match number_of_text(text@) {
            Some(n) => if n <= limit {
                n
            } else {
                default
            },
            None => default,
        },
        None => default,
    }
}

/// A text setting: what is given, or the default.
fn text_setting(given: &Option<String>, default: &str) -> (r: String)
    ensures
        r@ == text_or(*given, default@),
{
    match given {
        Some(text) => text.clone(),
        None => String::from_str(default),
    }
}

/// A number setting: the number that is given, where one is given that is
/// at most `limit`, or the default.
fn number_setting(given: &Option<String>, default: u64, limit: u64) -> (r: u64)
    requires
        default <= limit,
    ensures
        r == number_or(*given, default, limit),
        r <= limit,
{
    match given {
        Some(text) => match parse_number(text.as_str()) {
            Some(n) => {
                if n <= limit {
                    n
                } else {
                    default
                }
            },
            None => default,
        },
        None => default,
    }
}

/// The symbols that a comma-separated list names.
pub fn parse_symbols(list: &str) -> (r: Vec<String>)
    ensures
        texts(r@) == symbols_of(list@),
{
    let pieces = split_text(list, ',');
    let mut symbols: Vec<String> = Vec::new();
    let mut i: usize = 0;
    while i < pieces.len()
        invariant
            i <= pieces.len(),
            symbols@.len() == i,
            forall|j: int|
                0 <= j < i ==> (#[trigger] symbols@[j])@ == uppercase_of(trimmed_of(pieces@[j]@)),
        decreases pieces.len() - i,
    {
        let symbol = uppercase(trimmed(pieces[i].as_str()));
        symbols.push(symbol);
        i += 1;
    }
    assert(texts(symbols@) =~= texts(pieces@).map_values(
        |piece: Seq<char>| uppercase_of(trimmed_of(piece)),
    ));
    symbols
}

impl Config {
    /// The configuration that the settings give.
    pub fn from_settings(settings: &Settings) -> (config: Config)
        ensures
            texts(config.symbols@) == symbols_of(text_or(settings.symbols, "BTCUSDT,ETHUSDT"@)),
            config.ws_endpoint@ == text_or(
                settings.ws_endpoint,
                "wss://stream.binance.com:9443/ws"@,
            ),
            config.rest_endpoint@ == text_or(
                settings.rest_endpoint,
                "https://api.binance.com/api/v3"@,
            ),
            config.ipc_socket_path@ == text_or(settings.ipc_socket_path, "/tmp/quantumflow.sock"@),
            config.depth_levels == number_or(settings.depth_levels, 20, usize::MAX as u64),
            config.reconnect_delay_ms == number_or(settings.reconnect_delay_ms, 1000, u64::MAX),
            config.max_reconnect_attempts == number_or(
                settings.max_reconnect_attempts,
                10,
                u32::MAX as u64,
            ),
            config.health_check_interval_secs == number_or(
                settings.health_check_interval_secs,
                30,
                u64::MAX,
            ),
    {
        let list = text_setting(&settings.symbols, "BTCUSDT,ETHUSDT");
        Config {
            symbols: parse_symbols(list.as_str()),
            ws_endpoint: text_setting(&settings.ws_endpoint, "wss://stream.binance.com:9443/ws"),
            rest_endpoint: text_setting(&settings.rest_endpoint, "https://api.binance.com/api/v3"),
            ipc_socket_path: text_setting(&settings.ipc_socket_path, "/tmp/quantumflow.sock"),
            depth_levels: number_setting(&settings.depth_levels, 20, usize::MAX as u64) as usize,
            reconnect_delay_ms: number_setting(&settings.reconnect_delay_ms, 1000, u64::MAX),
            max_reconnect_attempts: number_setting(
                &settings.max_reconnect_attempts,
                10,
                u32::MAX as u64,
            ) as u32,
            health_check_interval_secs: number_setting(
                &settings.health_check_interval_secs,
                30,
                u64::MAX,
            ),
        }
    }
}

impl Default for Config {
    fn default() -> (config: Config)
        ensures
            config.symbols@.len() == 1,
            config.symbols@[0]@ == "BTCUSDT"@,
            config.ws_endpoint@ == "wss://stream.binance.com:9443/ws"@,
            config.rest_endpoint@ == "https://api.binance.com/api/v3"@,
            config.ipc_socket_path@ == "/tmp/quantumflow.sock"@,
            config.depth_levels == 20,
            config.reconnect_delay_ms == 1000,
            config.max_reconnect_attempts == 10,
            config.health_check_interval_secs == 30,
    {
        let mut symbols: Vec<String> = Vec::new();
        symbols.push(String::from_str("BTCUSDT"));
        Config {
            symbols,
            ws_endpoint: String::from_str("wss://stream.binance.com:9443/ws"),
            rest_endpoint: String::from_str("https://api.binance.com/api/v3"),
            ipc_socket_path: String::from_str("/tmp/quantumflow.sock"),
            depth_levels: 20,
            reconnect_delay_ms: 1000,
            max_reconnect_attempts: 10,
            health_check_interval_secs: 30,
        }
    }
}

} // verus!
