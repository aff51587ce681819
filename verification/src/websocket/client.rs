//! WebSocket client for Binance streams
//!
//! Holds what the connection is for and whether it is open, builds the
//! address of the combined stream, and decides what becomes of each thing
//! that comes off the stream.

use crate::error::{ErrorView, MarketDataError};
use crate::text::{lossy_text, lossy_text_of, lowercase, lowercase_of};
use vstd::prelude::*;
use vstd::string::StringExecFns;

verus! {

/// A message as it comes off the stream.
#[derive(Debug)]
pub enum Frame {
    Text(String),
    Binary(Vec<u8>),
    Ping(Vec<u8>),
    Pong(Vec<u8>),
    Close,
    Raw,
}

/// What reading from the stream gave.
#[derive(Debug)]
pub enum Inbound {
    /// A message.
    Message(Frame),
    /// A transport error, with its description.
    Error(String),
    /// The stream has ended.
    End,
}

/// What is to be done with what was read.
#[derive(Debug)]
pub enum Reception {
    /// A text payload for the parser.
    Deliver(String),
    /// A ping: answer with a pong of the same payload.
    Reply(Vec<u8>),
    /// Nothing to do.
    Nothing,
    /// The connection is unusable.
    Failed(MarketDataError),
}

/// What a [`Reception`] holds.
pub enum ReceptionView {
    Deliver(Seq<char>),
    Reply(Seq<u8>),
    Nothing,
    Failed(ErrorView),
}

impl View for Reception {
    type V = ReceptionView;

    open spec fn view(&self) -> ReceptionView {
        match self {
            Reception::Deliver(text) => ReceptionView::Deliver(text@),
            Reception::Reply(payload) => ReceptionView::Reply(payload@),
            Reception::Nothing => ReceptionView::Nothing,
            Reception::Failed(error) => ReceptionView::Failed(error@),
        }
    }
}

/// What is to be done with what was read from a connection that is open or
/// not.
pub open spec fn reception_of(connected: bool, inbound: Inbound) -> ReceptionView {
    if !connected {
        ReceptionView::Failed(ErrorView::WebSocketConnection("Not connected"@))
    } else {
        match inbound {
            Inbound::Message(Frame::Text(text)) => ReceptionView::Deliver(text@),
            Inbound::Message(Frame::Binary(data)) => ReceptionView::Deliver(lossy_text_of(data@)),
            Inbound::Message(Frame::Ping(data)) => ReceptionView::Reply(data@),
            Inbound::Message(Frame::Pong(_)) => ReceptionView::Nothing,
            Inbound::Message(Frame::Close) => ReceptionView::Failed(
                ErrorView::WebSocketConnection("Connection closed"@),
            ),
            Inbound::Message(Frame::Raw) => ReceptionView::Nothing,
            Inbound::Error(description) => ReceptionView::Failed(
                ErrorView::WebSocketMessage(description@),
            ),
            Inbound::End => ReceptionView::Failed(ErrorView::WebSocketConnection("Stream ended"@)),
        }
    }
}

/// Whether the connection is still open after what was read.
pub open spec fn open_after(connected: bool, inbound: Inbound) -> bool {
    connected && !(inbound is Error || inbound is End || inbound matches Inbound::Message(
        Frame::Close,
    ))
}

/// The stream names of the symbols, separated by `/`: for each symbol, in
/// lower case, its depth stream and then its trade stream.
pub open spec fn streams_of(symbols: Seq<String>) -> Seq<char>
    decreases symbols.len(),
{
    if symbols.len() == 0 {
        Seq::empty()
    } else {
        let name = lowercase_of(symbols.last()@);
        let pair = name + "@depth@100ms/"@ + name + "@trade"@;
        if symbols.len() == 1 {
            pair
        } else {
            streams_of(symbols.drop_last()) + "/"@ + pair
        }
    }
}

/// The address of the combined stream of the symbols.
pub open spec fn stream_url_of(endpoint: Seq<char>, symbols: Seq<String>) -> Seq<char> {
    endpoint + "/stream?streams="@ + streams_of(symbols)
}

/// What a [`WebSocketClient`] holds.
pub struct ClientView {
    pub connected: bool,
    pub endpoint: Seq<char>,
    pub symbols: Seq<String>,
}

/// WebSocket client for a single connection
#[derive(Debug)]
pub struct WebSocketClient {
    connected: bool,
    endpoint: String,
    symbols: Vec<String>,
}

impl View for WebSocketClient {
    type V = ClientView;

    closed spec fn view(&self) -> ClientView {
        ClientView { connected: self.connected, endpoint: self.endpoint@, symbols: self.symbols@ }
    }
}

impl WebSocketClient {
    /// Create a new WebSocket client
    pub fn new(endpoint: &str, symbols: Vec<String>) -> (client: WebSocketClient)
        ensures
            client@ == (ClientView { connected: false, endpoint: endpoint@, symbols: symbols@ }),
    {
        WebSocketClient { connected: false, endpoint: endpoint.to_owned(), symbols }
    }

    /// The address to connect to.
    pub fn stream_url(&self) -> (url: String)
        ensures
            url@ == stream_url_of(self@.endpoint, self@.symbols),
    {
        let mut url = self.endpoint.clone();
        url.append("/stream?streams=");
        let ghost head = url@;
        let mut i: usize = 0;
        while i < self.symbols.len()
            invariant
                i <= self.symbols.len(),
                url@ == head + streams_of(self.symbols@.take(i as int)),
            decreases self.symbols.len() - i,
        {
            proof {
                let next = self.symbols@.take(i + 1);
                assert(next.drop_last() == self.symbols@.take(i as int));
                assert(next.last() == self.symbols@[i as int]);
            }
            let name = lowercase(self.symbols[i].as_str());
            if i > 0 {
                url.append("/");
            }
            url.append(name.as_str());
            url.append("@depth@100ms/");
            url.append(name.as_str());
            url.append("@trade");
            i += 1;
        }
        assert(self.symbols@.take(i as int) == self.symbols@);
        url
    }

    /// Notes how an attempt to connect to [`WebSocketClient::stream_url`]
    /// ended.
    pub fn connect(&mut self, succeeded: bool)
        ensures
            final(self)@ == (ClientView { connected: succeeded, ..old(self)@ }),
    {
        self.connected = succeeded;
    }

    /// Decides what becomes of what was read from the stream. A close
    /// frame, a transport error and the end of the stream leave the
    /// connection closed.
    pub fn recv(&mut self, inbound: Inbound) -> (reception: Reception)
        ensures
            reception@ == reception_of(old(self)@.connected, inbound),
            final(self)@ == (ClientView {
                connected: open_after(old(self)@.connected, inbound),
                ..old(self)@
            }),
    {
        if !self.connected {
            return Reception::Failed(
                MarketDataError::WebSocketConnection(String::from_str("Not connected")),
            );
        }
        match inbound {
            Inbound::Message(Frame::Text(text)) => Reception::Deliver(text),
            Inbound::Message(Frame::Binary(data)) => Reception::Deliver(lossy_text(&data)),
            Inbound::Message(Frame::Ping(data)) => Reception::Reply(data),
            Inbound::Message(Frame::Pong(_)) => Reception::Nothing,
            Inbound::Message(Frame::Close) => {
                self.connected = false;
                Reception::Failed(
                    MarketDataError::WebSocketConnection(String::from_str("Connection closed")),
                )
            },
            Inbound::Message(Frame::Raw) => Reception::Nothing,
            Inbound::Error(description) => {
                self.connected = false;
                Reception::Failed(MarketDataError::WebSocketMessage(description))
            },
            Inbound::End => {
                self.connected = false;
                Reception::Failed(
                    MarketDataError::WebSocketConnection(String::from_str("Stream ended")),
                )
            },
        }
    }

    /// The payload of the keepalive ping to send: an empty one while the
    /// connection is open, none otherwise.
    pub fn ping(&self) -> (payload: Option<Vec<u8>>)
        ensures
            payload is Some <==> self@.connected,
            payload matches Some(bytes) ==> bytes@.len() == 0,
    {
        if self.connected {
            Some(Vec::new())
        } else {
            None
        }
    }

    /// Check if connected
    pub fn is_connected(&self) -> (r: bool)
        ensures
            r == self@.connected,
    {
        self.connected
    }

    /// Close the connection
    pub fn close(&mut self)
        ensures
            final(self)@ == (ClientView { connected: false, ..old(self)@ }),
    {
        self.connected = false;
    }
}

} // verus!
