//! Error types for the market data handler

use crate::text::{digits_of, number_text};
use vstd::prelude::*;
use vstd::string::StringExecFns;

verus! {

/// Market data handler errors
#[derive(Debug)]
pub enum MarketDataError {
    WebSocketConnection(String),
    WebSocketMessage(String),
    ParseError(String),
    OrderBookError(String),
    RestApiError(String),
    IpcError(String),
    ConfigError(String),
    SerializationError(String),
    SequenceMismatch { expected: u64, got: u64 },
    ConnectionTimeout,
    MaxReconnectAttemptsExceeded,
}

pub type Result<T> = std::result::Result<T, MarketDataError>;

/// What a [`MarketDataError`] holds.
pub enum ErrorView {
    WebSocketConnection(Seq<char>),
    WebSocketMessage(Seq<char>),
    ParseError(Seq<char>),
    OrderBookError(Seq<char>),
    RestApiError(Seq<char>),
    IpcError(Seq<char>),
    ConfigError(Seq<char>),
    SerializationError(Seq<char>),
    SequenceMismatch { expected: u64, got: u64 },
    ConnectionTimeout,
    MaxReconnectAttemptsExceeded,
}

impl ErrorView {
    /// The text that describes the error.
    pub open spec fn message(self) -> Seq<char> {
        match self {
            ErrorView::WebSocketConnection(detail) => "WebSocket connection error: "@ + detail,
            ErrorView::WebSocketMessage(detail) => "WebSocket message error: "@ + detail,
            ErrorView::ParseError(detail) => "Failed to parse message: "@ + detail,
            ErrorView::OrderBookError(detail) => "Order book error: "@ + detail,
            ErrorView::RestApiError(detail) => "REST API error: "@ + detail,
            ErrorView::IpcError(detail) => "IPC error: "@ + detail,
            ErrorView::ConfigError(detail) => "Configuration error: "@ + detail,
            ErrorView::SerializationError(detail) => "Serialization error: "@ + detail,
            ErrorView::SequenceMismatch { expected, got } => "Sequence number mismatch: expected "@
                + digits_of(expected as nat) + ", got "@ + digits_of(got as nat),
            ErrorView::ConnectionTimeout => "Connection timeout"@,
            ErrorView::MaxReconnectAttemptsExceeded => "Max reconnection attempts exceeded"@,
        }
    }
}

impl View for MarketDataError {
    type V = ErrorView;

    open spec fn view(&self) -> ErrorView {
        match self {
            MarketDataError::WebSocketConnection(detail) => ErrorView::WebSocketConnection(detail@),
            MarketDataError::WebSocketMessage(detail) => ErrorView::WebSocketMessage(detail@),
            MarketDataError::ParseError(detail) => ErrorView::ParseError(detail@),
            MarketDataError::OrderBookError(detail) => ErrorView::OrderBookError(detail@),
            MarketDataError::RestApiError(detail) => ErrorView::RestApiError(detail@),
            MarketDataError::IpcError(detail) => ErrorView::IpcError(detail@),
            MarketDataError::ConfigError(detail) => ErrorView::ConfigError(detail@),
            MarketDataError::SerializationError(detail) => ErrorView::SerializationError(detail@),
            MarketDataError::SequenceMismatch { expected, got } => ErrorView::SequenceMismatch {
                expected: *expected,
                got: *got,
            },
            MarketDataError::ConnectionTimeout => ErrorView::ConnectionTimeout,
            MarketDataError::MaxReconnectAttemptsExceeded => ErrorView::MaxReconnectAttemptsExceeded,
        }
    }
}

/// `label` followed by `detail`.
fn labelled(label: &str, detail: &str) -> (r: String)
    ensures
        r@ == label@ + detail@,
{
    let mut text = String::from_str(label);
    text.append(detail);
    text
}

impl MarketDataError {
    /// The text that describes the error.
    pub fn message(&self) -> (r: String)
        ensures
            r@ == self@.message(),
    {
        match self {
            MarketDataError::WebSocketConnection(detail) => labelled(
                "WebSocket connection error: ",
                detail.as_str(),
            ),
            MarketDataError::WebSocketMessage(detail) => labelled(
                "WebSocket message error: ",
                detail.as_str(),
            ),
            MarketDataError::ParseError(detail) => labelled(
                "Failed to parse message: ",
                detail.as_str(),
            ),
            MarketDataError::OrderBookError(detail) => labelled(
                "Order book error: ",
                detail.as_str(),
            ),
            MarketDataError::RestApiError(detail) => labelled("REST API error: ", detail.as_str()),
            MarketDataError::IpcError(detail) => labelled("IPC error: ", detail.as_str()),
            MarketDataError::ConfigError(detail) => labelled(
                "Configuration error: ",
                detail.as_str(),
            ),
            MarketDataError::SerializationError(detail) => labelled(
                "Serialization error: ",
                detail.as_str(),
            ),
            MarketDataError::SequenceMismatch { expected, got } => {
                let mut text = labelled(
                    "Sequence number mismatch: expected ",
                    number_text(*expected).as_str(),
                );
                text.append(", got ");
                text.append(number_text(*got).as_str());
                text
            },
            MarketDataError::ConnectionTimeout => String::from_str("Connection timeout"),
            MarketDataError::MaxReconnectAttemptsExceeded => String::from_str(
                "Max reconnection attempts exceeded",
            ),
        }
    }
}

} // verus!
