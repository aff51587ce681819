//! Per-symbol limit order books and what is published of them.

pub mod book;
pub mod ladder;
pub mod manager;
pub mod metrics;

pub use book::OrderBook;
pub use manager::OrderBookManager;
pub use metrics::OrderBookMetrics;

use crate::decimal::Decimal;
use vstd::prelude::*;

verus! {

/// Side of the order book
#[derive(Debug, Clone, Copy, PartialEq, Eq, Structural)]
pub enum Side {
    Bid,
    Ask,
}

/// A single level in the order book
#[derive(Debug, Clone, Copy)]
pub struct Level {
    pub price: Decimal,
    pub quantity: Decimal,
}

/// Order book state to be published
#[derive(Debug, Clone)]
pub struct OrderBookState {
    pub symbol: String,
    pub timestamp: u64,
    pub last_update_id: u64,
    pub bids: Vec<Level>,
    pub asks: Vec<Level>,
    pub metrics: OrderBookMetrics,
}

/// What an [`OrderBookState`] holds.
pub struct StateView {
    pub symbol: Seq<char>,
    pub timestamp: u64,
    pub last_update_id: u64,
    pub bids: Seq<Level>,
    pub asks: Seq<Level>,
    pub metrics: OrderBookMetrics,
}

impl View for OrderBookState {
    type V = StateView;

    open spec fn view(&self) -> StateView {
        StateView {
            symbol: self.symbol@,
            timestamp: self.timestamp,
            last_update_id: self.last_update_id,
            bids: self.bids@,
            asks: self.asks@,
            metrics: self.metrics,
        }
    }
}

} // verus!
