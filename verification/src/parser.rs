//! Parser module for Binance WebSocket messages
//!
//! Handles depth updates, trades, and REST snapshots. A text frame is first
//! read as a JSON document; the messages are then read off the document.
//! Prices and quantities are read from their text, never through a binary
//! floating-point number.

use crate::decimal::{decimal_of_text, Decimal};
use crate::error::{ErrorView, MarketDataError};
use crate::json::{json_of_text, member_text_of, Json};
use crate::text::{contains_text, occurs_in, same_text};
use vstd::prelude::*;
use vstd::string::StringExecFns;

verus! {

/// A price and the aggregate quantity resting at it.
///
/// In a depth diff a zero quantity asks for the level to be removed; in a
/// snapshot a level without a positive quantity is ignored.
#[derive(Debug, Clone, Copy)]
pub struct PriceLevel {
    pub price: Decimal,
    pub quantity: Decimal,
}

/// Binance depth update message: an incremental book update covering the
/// sequence range `first_update_id ..= final_update_id`.
#[derive(Debug, Clone)]
pub struct DepthUpdate {
    /// Event type
    pub event_type: String,
    /// Event time (milliseconds)
    pub event_time: u64,
    /// Symbol
    pub symbol: String,
    /// First update ID in event
    pub first_update_id: u64,
    /// Final update ID in event
    pub final_update_id: u64,
    /// Bids to update
    pub bids: Vec<PriceLevel>,
    /// Asks to update
    pub asks: Vec<PriceLevel>,
}

/// Binance trade message
#[derive(Debug, Clone)]
pub struct Trade {
    /// Event type
    pub event_type: String,
    /// Event time
    pub event_time: u64,
    /// Symbol
    pub symbol: String,
    /// Trade ID
    pub trade_id: u64,
    /// Price
    pub price: Decimal,
    /// Quantity
    pub quantity: Decimal,
    /// Buyer order ID
    pub buyer_order_id: u64,
    /// Seller order ID
    pub seller_order_id: u64,
    /// Trade time
    pub trade_time: u64,
    /// Is buyer maker
    pub is_buyer_maker: bool,
}

/// Order book snapshot from REST API
#[derive(Debug, Clone)]
pub struct OrderBookSnapshot {
    /// Last update ID
    pub last_update_id: u64,
    /// Bids
    pub bids: Vec<PriceLevel>,
    /// Asks
    pub asks: Vec<PriceLevel>,
}

/// Combined stream message wrapper
#[derive(Debug)]
pub struct StreamMessage<'a> {
    /// Stream name
    pub stream: &'a str,
    /// Data payload
    pub data: &'a Json,
}

/// Parsed WebSocket message
#[derive(Debug, Clone)]
pub enum ParsedMessage {
    DepthUpdate(DepthUpdate),
    Trade(Trade),
    Unknown(String),
}

/// What a [`DepthUpdate`] holds.
pub struct DepthUpdateView {
    pub event_type: Seq<char>,
    pub event_time: u64,
    pub symbol: Seq<char>,
    pub first_update_id: u64,
    pub final_update_id: u64,
    pub bids: Seq<PriceLevel>,
    pub asks: Seq<PriceLevel>,
}

/// What a [`Trade`] holds.
pub struct TradeView {
    pub event_type: Seq<char>,
    pub event_time: u64,
    pub symbol: Seq<char>,
    pub trade_id: u64,
    pub price: Decimal,
    pub quantity: Decimal,
    pub buyer_order_id: u64,
    pub seller_order_id: u64,
    pub trade_time: u64,
    pub is_buyer_maker: bool,
}

/// What an [`OrderBookSnapshot`] holds.
pub struct SnapshotView {
    pub last_update_id: u64,
    pub bids: Seq<PriceLevel>,
    pub asks: Seq<PriceLevel>,
}

/// What a [`ParsedMessage`] holds.
pub enum MessageView {
    DepthUpdate(DepthUpdateView),
    Trade(TradeView),
    Unknown(Seq<char>),
}

impl View for DepthUpdate {
    type V = DepthUpdateView;

    open spec fn view(&self) -> DepthUpdateView {
        DepthUpdateView {
            event_type: self.event_type@,
            event_time: self.event_time,
            symbol: self.symbol@,
            first_update_id: self.first_update_id,
            final_update_id: self.final_update_id,
            bids: self.bids@,
            asks: self.asks@,
        }
    }
}

impl View for Trade {
    type V = TradeView;

    open spec fn view(&self) -> TradeView {
        TradeView {
            event_type: self.event_type@,
            event_time: self.event_time,
            symbol: self.symbol@,
            trade_id: self.trade_id,
            price: self.price,
            quantity: self.quantity,
            buyer_order_id: self.buyer_order_id,
            seller_order_id: self.seller_order_id,
            trade_time: self.trade_time,
            is_buyer_maker: self.is_buyer_maker,
        }
    }
}

impl View for OrderBookSnapshot {
    type V = SnapshotView;

    open spec fn view(&self) -> SnapshotView {
        SnapshotView { last_update_id: self.last_update_id, bids: self.bids@, asks: self.asks@ }
    }
}

impl View for ParsedMessage {
    type V = MessageView;

    open spec fn view(&self) -> MessageView {
        match self {
            ParsedMessage::DepthUpdate(depth) => MessageView::DepthUpdate(depth@),
            ParsedMessage::Trade(trade) => MessageView::Trade(trade@),
            ParsedMessage::Unknown(raw) => MessageView::Unknown(raw@),
        }
    }
}

/// The text of the member `name`.
pub open spec fn text_of(json: Json, name: Seq<char>) -> Option<Seq<char>> {
    match json.member(name) {
        Some(value) => value.text(),
        None => None,
    }
}

/// The whole number of the member `name`.
pub open spec fn number_of(json: Json, name: Seq<char>) -> Option<u64> {
    match json.member(name) {
        Some(value) => value.number(),
        None => None,
    }
}

/// The boolean of the member `name`.
pub open spec fn flag_of(json: Json, name: Seq<char>) -> Option<bool> {
    match json.member(name) {
        Some(value) => value.boolean(),
        None => None,
    }
}

/// The decimal that the text of the member `name` spells.
pub open spec fn decimal_of(json: Json, name: Seq<char>) -> Option<Decimal> {
    match text_of(json, name) {
        Some(text) => decimal_of_text(text),
        None => None,
    }
}

/// The price level of a row: an array of exactly two texts, each of which
/// spells a decimal.
pub open spec fn level_of(row: Json) -> Option<PriceLevel> {
    match row.items() {
        Some(cells) => if cells.len() == 2 {
            match (cells[0].text(), cells[1].text()) {
                (Some(price), Some(quantity)) => match (
                    decimal_of_text(price),
                    decimal_of_text(quantity),
                ) {
                    (Some(price), Some(quantity)) => Some(PriceLevel { price, quantity }),
                    _ => None,
                },
                _ => None,
            }
        } else {
            None
        },
        None => None,
    }
}

/// The price levels of the rows, where every row is a price level.
pub open spec fn levels_of(rows: Seq<Json>) -> Option<Seq<PriceLevel>>
    decreases rows.len(),
{
    if rows.len() == 0 {
        Some(Seq::empty())
    } else {
        match (levels_of(rows.drop_last()), level_of(rows.last())) {
            (Some(levels), Some(level)) => Some(levels.push(level)),
            _ => None,
        }
    }
}

/// The price levels of the member `name`.
pub open spec fn side_of(json: Json, name: Seq<char>) -> Option<Seq<PriceLevel>> {
    match json.member(name) {
        Some(value) => match value.items() {
            Some(rows) => levels_of(rows),
            None => None,
        },
        None => None,
    }
}

/// The depth update that a document holds: an object with the members
/// `e`, `E`, `s`, `U`, `u`, `b` and `a`, each of its kind.
pub open spec fn depth_of(json: Json) -> Option<DepthUpdateView> {
    match (
        text_of(json, "e"@),
        number_of(json, "E"@),
        text_of(json, "s"@),
        number_of(json, "U"@),
        number_of(json, "u"@),
        side_of(json, "b"@),
        side_of(json, "a"@),
    ) {
        (
            Some(event_type),
            Some(event_time),
            Some(symbol),
            Some(first_update_id),
            Some(final_update_id),
            Some(bids),
            Some(asks),
        ) => Some(
            DepthUpdateView {
                event_type,
                event_time,
                symbol,
                first_update_id,
                final_update_id,
                bids,
                asks,
            },
        ),
        _ => None,
    }
}

/// The trade that a document holds: an object with the members `e`, `E`,
/// `s`, `t`, `p`, `q`, `b`, `a`, `T` and `m`, each of its kind.
pub open spec fn trade_of(json: Json) -> Option<TradeView> {
    match (
        text_of(json, "e"@),
        number_of(json, "E"@),
        text_of(json, "s"@),
        number_of(json, "t"@),
        decimal_of(json, "p"@),
        decimal_of(json, "q"@),
    ) {
        (
            Some(event_type),
            Some(event_time),
            Some(symbol),
            Some(trade_id),
            Some(price),
            Some(quantity),
        ) => match (
            number_of(json, "b"@),
            number_of(json, "a"@),
            number_of(json, "T"@),
            flag_of(json, "m"@),
        ) {
            (Some(buyer_order_id), Some(seller_order_id), Some(trade_time), Some(is_buyer_maker)) => Some(
                TradeView {
                    event_type,
                    event_time,
                    symbol,
                    trade_id,
                    price,
                    quantity,
                    buyer_order_id,
                    seller_order_id,
                    trade_time,
                    is_buyer_maker,
                },
            ),
            _ => None,
        },
        _ => None,
    }
}

/// The snapshot that a document holds: an object with the members
/// `lastUpdateId`, `bids` and `asks`, each of its kind.
pub open spec fn snapshot_of(json: Json) -> Option<SnapshotView> {
    match (number_of(json, "lastUpdateId"@), side_of(json, "bids"@), side_of(json, "asks"@)) {
        (Some(last_update_id), Some(bids), Some(asks)) => Some(
            SnapshotView { last_update_id, bids, asks },
        ),
        _ => None,
    }
}

/// The stream name and the payload of a combined-stream wrapper: an object
/// with a text member `stream` and a member `data`.
pub open spec fn envelope_of(json: Json) -> Option<(Seq<char>, Json)> {
    match (text_of(json, "stream"@), json.member("data"@)) {
        (Some(stream), Some(data)) => Some((stream, data)),
        _ => None,
    }
}

/// The message that a frame holds, given the document read from it, or
/// the error with which the frame is rejected.
///
/// A wrapper is routed by its stream name, a bare event by its member
/// `e`. What is announced as a depth update or as a trade has to be one:
/// a member that is missing or of the wrong kind, a price level that is not
/// an array of exactly two texts, or a text that spells no decimal rejects
/// the frame. Anything else, text that is no document included, is an
/// unknown message.
pub open spec fn message_of(document: Option<Json>, raw: Seq<char>) -> Result<
    MessageView,
    ErrorView,
> {
    match document {
        None => Ok(MessageView::Unknown(raw)),
        Some(json) => match envelope_of(json) {
            Some((stream, data)) => payload_of(stream, data, raw),
            None => event_of(json, raw),
        },
    }
}

/// The message that a bare event holds, by its member `e`, or the error
/// with which the frame is rejected. A document without a text member `e`,
/// or with another event type, is an unknown message that carries the
/// frame.
pub open spec fn event_of(json: Json, raw: Seq<char>) -> Result<MessageView, ErrorView> {
    match text_of(json, "e"@) {
        Some(event_type) => {
            if event_type == "depthUpdate"@ {
                match depth_of(json) {
                    Some(depth) => Ok(MessageView::DepthUpdate(depth)),
                    None => Err(ErrorView::ParseError("invalid depth update"@)),
                }
            } else if event_type == "trade"@ {
                match trade_of(json) {
                    Some(trade) => Ok(MessageView::Trade(trade)),
                    None => Err(ErrorView::ParseError("invalid trade"@)),
                }
            } else {
                Ok(MessageView::Unknown(raw))
            }
        },
        None => Ok(MessageView::Unknown(raw)),
    }
}

/// What an unknown message in a wrapper carries: the payload as
/// `serde_json` writes the member `data` of the frame.
pub open spec fn carried_of(raw: Seq<char>) -> Seq<char> {
    match member_text_of(raw, "data"@) {
        Some(text) => text,
        None => raw,
    }
}

/// The message in the payload of a wrapper, by the name of its stream, or
/// the error with which the frame is rejected. A stream that is neither a
/// depth nor a trade stream gives an unknown message that carries the
/// payload.
pub open spec fn payload_of(stream: Seq<char>, data: Json, raw: Seq<char>) -> Result<
    MessageView,
    ErrorView,
> {
    if occurs_in("depth"@, stream) {
        match depth_of(data) {
            Some(depth) => Ok(MessageView::DepthUpdate(depth)),
            None => Err(ErrorView::ParseError("invalid depth update"@)),
        }
    } else if occurs_in("trade"@, stream) {
        match trade_of(data) {
            Some(trade) => Ok(MessageView::Trade(trade)),
            None => Err(ErrorView::ParseError("invalid trade"@)),
        }
    } else {
        Ok(MessageView::Unknown(carried_of(raw)))
    }
}

/// Whether `result` holds what `expected` says.
pub open spec fn parsed_as(
    result: Result<ParsedMessage, MarketDataError>,
    expected: Result<MessageView, ErrorView>,
) -> bool {
    match expected {
        Ok(message) => result matches Ok(parsed) && parsed@ == message,
        Err(error) => result matches Err(e) && e@ == error,
    }
}

/// The text of the member `name`.
fn text_field<'a>(json: &'a Json, name: &str) -> (r: Option<&'a str>)
    ensures
        match text_of(*json, name@) {
            Some(text) => r matches Some(s) && s@ == text,
            None => r is None,
        },
{
    match json.get(name) {
        Some(value) => value.as_str(),
        None => None,
    }
}

/// The whole number of the member `name`.
fn number_field(json: &Json, name: &str) -> (r: Option<u64>)
    ensures
        r == number_of(*json, name@),
{
    match json.get(name) {
        Some(value) => value.as_u64(),
        None => None,
    }
}

/// The boolean of the member `name`.
fn flag_field(json: &Json, name: &str) -> (r: Option<bool>)
    ensures
        r == flag_of(*json, name@),
{
    match json.get(name) {
        Some(value) => value.as_bool(),
        None => None,
    }
}

/// The decimal that the text of the member `name` spells.
fn decimal_field(json: &Json, name: &str) -> (r: Option<Decimal>)
    ensures
        r == decimal_of(*json, name@),
{
    match text_field(json, name) {
        Some(text) => Decimal::parse(text),
        None => None,
    }
}

/// The price level of a row.
fn level(row: &Json) -> (r: Option<PriceLevel>)
    ensures
        r == level_of(*row),
{
    match row.as_array() {
        Some(cells) => {
            if cells.len() != 2 {
                return None;
            }
            match (cells[0].as_str(), cells[1].as_str()) {
                (Some(price), Some(quantity)) => match (
                    Decimal::parse(price),
                    Decimal::parse(quantity),
                ) {
                    (Some(price), Some(quantity)) => Some(PriceLevel { price, quantity }),
                    _ => None,
                },
                _ => None,
            }
        },
        None => None,
    }
}

/// The price levels of the rows, where every row is a price level.
pub fn price_levels(rows: &Vec<Json>) -> (r: Option<Vec<PriceLevel>>)
    ensures
        match levels_of(rows@) {
            Some(levels) => r matches Some(v) && v@ == levels,
            None => r is None,
        },
{
    let mut levels: Vec<PriceLevel> = Vec::new();
    let mut i: usize = 0;
    while i < rows.len()
        invariant
            i <= rows.len(),
            levels_of(rows@.take(i as int)) == Some(levels@),
        decreases rows.len() - i,
    {
        proof {
            let next = rows@.take(i + 1);
            assert(next.drop_last() == rows@.take(i as int));
            assert(next.last() == rows@[i as int]);
        }
        match level(&rows[i]) {
            Some(level) => {
                levels.push(level);
            },
            None => {
                proof {
                    lemma_levels_undefined(rows@.take(i + 1), rows@);
                }
                return None;
            },
        }
        i += 1;
    }
    assert(rows@.take(i as int) == rows@);
    Some(levels)
}

/// Rows that are not all price levels up to some point are not all price
/// levels.
pub proof fn lemma_levels_undefined(prefix: Seq<Json>, rows: Seq<Json>)
    requires
        prefix.len() <= rows.len(),
        prefix == rows.take(prefix.len() as int),
        levels_of(prefix) is None,
    ensures
        levels_of(rows) is None,
    decreases rows.len(),
{
    if prefix.len() < rows.len() {
        assert(rows.drop_last().take(prefix.len() as int) == prefix);
        lemma_levels_undefined(prefix, rows.drop_last());
    } else {
        assert(prefix == rows);
    }
}

/// Rows of which one is no price level are not all price levels.
pub proof fn lemma_levels_need_every_row(rows: Seq<Json>, row: int)
    requires
        0 <= row < rows.len(),
        level_of(rows[row]) is None,
    ensures
        levels_of(rows) is None,
    decreases rows.len(),
{
    if row < rows.len() - 1 {
        assert(rows.drop_last()[row] == rows[row]);
        lemma_levels_need_every_row(rows.drop_last(), row);
    }
}

/// A document whose bids or asks hold a row that is not an array of
/// exactly two members holds no depth update: as a bare event that says it
/// is a depth update, and as the payload of a depth stream, it is rejected
/// with a parse error.
pub proof fn lemma_wrong_arity_rejected(json: Json, raw: Seq<char>, name: Seq<char>, row: int)
    requires
        name == "b"@ || name == "a"@,
        json.member(name) matches Some(side) && side.items() matches Some(rows) && 0 <= row
            < rows.len() && !(rows[row].items() matches Some(cells) && cells.len() == 2),
    ensures
        depth_of(json) is None,
        envelope_of(json) is None && text_of(json, "e"@) == Some("depthUpdate"@) ==> message_of(
            Some(json),
            raw,
        ) == Err::<MessageView, ErrorView>(ErrorView::ParseError("invalid depth update"@)),
        forall|stream: Seq<char>|
            occurs_in("depth"@, stream) ==> #[trigger] payload_of(stream, json, raw) == Err::<
                MessageView,
                ErrorView,
            >(ErrorView::ParseError("invalid depth update"@)),
{
    let rows = json.member(name)->0.items()->0;
    lemma_levels_need_every_row(rows, row);
}

/// The price levels of the member `name`.
fn side_field(json: &Json, name: &str) -> (r: Option<Vec<PriceLevel>>)
    ensures
        match side_of(*json, name@) {
            Some(levels) => r matches Some(v) && v@ == levels,
            None => r is None,
        },
{
    match json.get(name) {
        Some(value) => match value.as_array() {
            Some(rows) => price_levels(rows),
            None => None,
        },
        None => None,
    }
}

impl DepthUpdate {
    /// The depth update that a document holds.
    pub fn from_json(json: &Json) -> (r: Option<DepthUpdate>)
        ensures
            match depth_of(*json) {
                Some(depth) => r matches Some(d) && d@ == depth,
                None => r is None,
            },
    {
        let event_type = text_field(json, "e");
        let event_time = number_field(json, "E");
        let symbol = text_field(json, "s");
        let first_update_id = number_field(json, "U");
        let final_update_id = number_field(json, "u");
        let bids = side_field(json, "b");
        let asks = side_field(json, "a");
        match (event_type, event_time, symbol, first_update_id, final_update_id, bids, asks) {
            (
                Some(event_type),
                Some(event_time),
                Some(symbol),
                Some(first_update_id),
                Some(final_update_id),
                Some(bids),
                Some(asks),
            ) => Some(
                DepthUpdate {
                    event_type: event_type.to_owned(),
                    event_time,
                    symbol: symbol.to_owned(),
                    first_update_id,
                    final_update_id,
                    bids,
                    asks,
                },
            ),
            _ => None,
        }
    }
}

impl Trade {
    /// The trade that a document holds.
    pub fn from_json(json: &Json) -> (r: Option<Trade>)
        ensures
            match trade_of(*json) {
                Some(trade) => r matches Some(t) && t@ == trade,
                None => r is None,
            },
    {
        let event_type = text_field(json, "e");
        let event_time = number_field(json, "E");
        let symbol = text_field(json, "s");
        let trade_id = number_field(json, "t");
        let price = decimal_field(json, "p");
        let quantity = decimal_field(json, "q");
        let buyer_order_id = number_field(json, "b");
        let seller_order_id = number_field(json, "a");
        let trade_time = number_field(json, "T");
        let is_buyer_maker = flag_field(json, "m");
        match (event_type, event_time, symbol, trade_id, price, quantity) {
            (
                Some(event_type),
                Some(event_time),
                Some(symbol),
                Some(trade_id),
                Some(price),
                Some(quantity),
            ) => match (buyer_order_id, seller_order_id, trade_time, is_buyer_maker) {
                (
                    Some(buyer_order_id),
                    Some(seller_order_id),
                    Some(trade_time),
                    Some(is_buyer_maker),
                ) => Some(
                    Trade {
                        event_type: event_type.to_owned(),
                        event_time,
                        symbol: symbol.to_owned(),
                        trade_id,
                        price,
                        quantity,
                        buyer_order_id,
                        seller_order_id,
                        trade_time,
                        is_buyer_maker,
                    },
                ),
                _ => None,
            },
            _ => None,
        }
    }
}

impl OrderBookSnapshot {
    /// The snapshot that a document holds.
    pub fn from_json(json: &Json) -> (r: Option<OrderBookSnapshot>)
        ensures
            match snapshot_of(*json) {
                Some(snapshot) => r matches Some(s) && s@ == snapshot,
                None => r is None,
            },
    {
        let last_update_id = number_field(json, "lastUpdateId");
        let bids = side_field(json, "bids");
        let asks = side_field(json, "asks");
        match (last_update_id, bids, asks) {
            (Some(last_update_id), Some(bids), Some(asks)) => Some(
                OrderBookSnapshot { last_update_id, bids, asks },
            ),
            _ => None,
        }
    }

    /// Reads the body of a REST depth response. Text that is no document,
    /// or a document that holds no snapshot, is an error.
    pub fn parse(body: &str) -> (r: Result<OrderBookSnapshot, MarketDataError>)
        ensures
            match json_of_text(body@) {
                Some(json) => match snapshot_of(json) {
                    Some(snapshot) => r matches Ok(s) && s@ == snapshot,
                    None => r matches Err(e) && e@ == ErrorView::RestApiError(
                        "response holds no snapshot"@,
                    ),
                },
                None => r matches Err(e) && e@ == ErrorView::RestApiError(
                    "response is not JSON"@,
                ),
            },
    {
        match Json::parse(body) {
            Some(json) => match OrderBookSnapshot::from_json(&json) {
                Some(snapshot) => Ok(snapshot),
                None => Err(
                    MarketDataError::RestApiError(String::from_str("response holds no snapshot")),
                ),
            },
            None => Err(MarketDataError::RestApiError(String::from_str("response is not JSON"))),
        }
    }
}

impl<'a> StreamMessage<'a> {
    /// The wrapper that a document holds.
    pub fn from_json(json: &'a Json) -> (r: Option<StreamMessage<'a>>)
        ensures
            match envelope_of(*json) {
                Some((stream, data)) => r matches Some(message) && message.stream@ == stream
                    && *message.data == data,
                None => r is None,
            },
    {
        match (text_field(json, "stream"), json.get("data")) {
            (Some(stream), Some(data)) => Some(StreamMessage { stream, data }),
            _ => None,
        }
    }
}

impl ParsedMessage {
    /// Parse a raw WebSocket message
    pub fn parse(raw: &str) -> (r: Result<ParsedMessage, MarketDataError>)
        ensures
            parsed_as(r, message_of(json_of_text(raw@), raw@)),
    {
        let document = Json::parse(raw);
        ParsedMessage::from_document(document.as_ref(), raw)
    }

    /// The message that a frame holds, given the document read from it.
    pub fn from_document(document: Option<&Json>, raw: &str) -> (r: Result<
        ParsedMessage,
        MarketDataError,
    >)
        ensures
            parsed_as(
                r,
                message_of(
                    match document {
                        Some(json) => Some(*json),
                        None => None,
                    },
                    raw@,
                ),
            ),
    {
        let json = match document {
            Some(json) => json,
            None => {
                return Ok(ParsedMessage::Unknown(raw.to_owned()));
            },
        };
        if let Some(message) = StreamMessage::from_json(json) {
            return ParsedMessage::parse_stream_data(message.stream, message.data, raw);
        }
        ParsedMessage::parse_event(json, raw)
    }

    /// The message that a bare event holds, by its member `e`.
    fn parse_event(json: &Json, raw: &str) -> (r: Result<ParsedMessage, MarketDataError>)
        ensures
            parsed_as(r, event_of(*json, raw@)),
    {
        match text_field(json, "e") {
            Some(event_type) => {
                if same_text(event_type, "depthUpdate") {
                    match DepthUpdate::from_json(json) {
                        Some(depth) => Ok(ParsedMessage::DepthUpdate(depth)),
                        None => Err(
                            MarketDataError::ParseError(String::from_str("invalid depth update")),
                        ),
                    }
                } else if same_text(event_type, "trade") {
                    match Trade::from_json(json) {
                        Some(trade) => Ok(ParsedMessage::Trade(trade)),
                        None => Err(MarketDataError::ParseError(String::from_str("invalid trade"))),
                    }
                } else {
                    Ok(ParsedMessage::Unknown(raw.to_owned()))
                }
            },
            None => Ok(ParsedMessage::Unknown(raw.to_owned())),
        }
    }

    /// The message in the payload of a wrapper, by the name of its stream.
    fn parse_stream_data(stream: &str, data: &Json, raw: &str) -> (r: Result<
        ParsedMessage,
        MarketDataError,
    >)
        ensures
            parsed_as(r, payload_of(stream@, *data, raw@)),
    {
        if contains_text(stream, "depth") {
            match DepthUpdate::from_json(data) {
                Some(depth) => Ok(ParsedMessage::DepthUpdate(depth)),
                None => Err(MarketDataError::ParseError(String::from_str("invalid depth update"))),
            }
        } else if contains_text(stream, "trade") {
            match Trade::from_json(data) {
                Some(trade) => Ok(ParsedMessage::Trade(trade)),
                None => Err(MarketDataError::ParseError(String::from_str("invalid trade"))),
            }
        } else {
            match Json::member_text(raw, "data") {
                Some(payload) => Ok(ParsedMessage::Unknown(payload)),
                None => Ok(ParsedMessage::Unknown(raw.to_owned())),
            }
        }
    }
}

} // verus!
