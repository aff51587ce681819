//! Market-data ingestion core: exact decimals, per-symbol limit order books,
//! the snapshot/diff synchronisation protocol, connection supervision and
//! the framing of published book states.

pub mod config;
pub mod decimal;
pub mod error;
pub mod json;
pub mod orderbook;
pub mod parser;
pub mod publisher;
pub mod text;
pub mod websocket;

pub use config::Config;
pub use decimal::Decimal;
pub use error::{MarketDataError, Result};
pub use orderbook::{Level, OrderBook, OrderBookManager, OrderBookMetrics, OrderBookState, Side};
pub use parser::{DepthUpdate, OrderBookSnapshot, ParsedMessage, PriceLevel, Trade};
pub use publisher::Publisher;
pub use websocket::{WebSocketClient, WebSocketManager};
