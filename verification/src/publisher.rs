//! Publisher module for IPC communication
//!
//! A published state travels as one frame: the length of the encoded
//! state as four bytes, most significant first, then the encoded state.
//! The connection to the socket is made lazily and dropped on a failed
//! write; a publish never fails the caller.

use vstd::prelude::*;

verus! {

/// The number of bytes that carry the length of a frame's payload.
pub const HEADER_LEN: usize = 4;

/// A length as four bytes, most significant first.
pub open spec fn be32(n: nat) -> Seq<u8> {
    seq![
        (n / 16777216 % 256) as u8,
        (n / 65536 % 256) as u8,
        (n / 256 % 256) as u8,
        (n % 256) as u8,
    ]
}

/// The length that four bytes carry, most significant first.
pub open spec fn length_of(header: Seq<u8>) -> nat {
    (header[0] * 16777216 + header[1] * 65536 + header[2] * 256 + header[3]) as nat
}

/// The frame for a payload.
pub open spec fn frame_of(payload: Seq<u8>) -> Seq<u8> {
    be32(payload.len()) + payload
}

/// A reader that takes the first four bytes of a frame as a length and
/// then that many bytes gets the payload back, and the frame ends there.
pub proof fn lemma_frame_reads_back(payload: Seq<u8>)
    requires
        payload.len() <= u32::MAX,
    ensures
        frame_of(payload).len() == HEADER_LEN + payload.len(),
        length_of(frame_of(payload).take(HEADER_LEN as int)) == payload.len(),
        frame_of(payload).subrange(HEADER_LEN as int, HEADER_LEN + payload.len()) == payload,
{
    let n = payload.len();
    let frame = frame_of(payload);
    assert(frame.take(HEADER_LEN as int) =~= be32(n));
    assert(frame.subrange(HEADER_LEN as int, HEADER_LEN + n) =~= payload);
    assert(be32(n)[0] == (n / 16777216 % 256) as u8);
    assert(be32(n)[1] == (n / 65536 % 256) as u8);
    assert(be32(n)[2] == (n / 256 % 256) as u8);
    assert(be32(n)[3] == (n % 256) as u8);
}

/// The frame for a payload, or `None` where the payload is longer than
/// four bytes can say.
pub fn frame(payload: &[u8]) -> (r: Option<Vec<u8>>)
    ensures
        r is Some <==> payload@.len() <= u32::MAX,
        r matches Some(bytes) ==> bytes@ == frame_of(payload@),
{
    let n = payload.len();
    if n > 0xFFFF_FFFF {
        return None;
    }
    let mut bytes: Vec<u8> = Vec::new();
    bytes.push((n / 16777216 % 256) as u8);
    bytes.push((n / 65536 % 256) as u8);
    bytes.push((n / 256 % 256) as u8);
    bytes.push((n % 256) as u8);
    assert(bytes@ =~= be32(n as nat));
    bytes.extend_from_slice(payload);
    assert(bytes@ =~= frame_of(payload@));
    Some(bytes)
}

/// The length of the payload that a frame header announces.
pub fn payload_length(header: [u8; 4]) -> (n: usize)
    ensures
        n == length_of(header@),
{
    let n: u64 = header[0] as u64 * 16777216 + header[1] as u64 * 65536 + header[2] as u64 * 256
        + header[3] as u64;
    n as usize
}

/// What a publish is to do.
#[derive(Debug)]
pub enum Delivery {
    /// Write the frame to the socket.
    Write(Vec<u8>),
    /// Connect to the socket, then write the frame; where connecting
    /// fails, drop the frame.
    ConnectAndWrite(Vec<u8>),
    /// Drop the state: it cannot be framed.
    Skip,
}

/// What a [`Publisher`] holds.
pub struct PublisherView {
    pub socket_path: Seq<char>,
    pub connected: bool,
}

/// Publisher for sending order book updates via Unix socket
#[derive(Debug)]
pub struct Publisher {
    socket_path: String,
    connected: bool,
}

impl View for Publisher {
    type V = PublisherView;

    closed spec fn view(&self) -> PublisherView {
        PublisherView { socket_path: self.socket_path@, connected: self.connected }
    }
}

impl Publisher {
    /// Create a new publisher, not yet connected
    pub fn new(socket_path: &str) -> (publisher: Publisher)
        ensures
            publisher@ == (PublisherView { socket_path: socket_path@, connected: false }),
    {
        Publisher { socket_path: socket_path.to_owned(), connected: false }
    }

    /// The socket to connect to.
    pub fn socket_path(&self) -> (r: &str)
        ensures
            r@ == self@.socket_path,
    {
        self.socket_path.as_str()
    }

    /// Whether the socket is taken to be connected.
    pub fn is_connected(&self) -> (r: bool)
        ensures
            r == self@.connected,
    {
        self.connected
    }

    /// Publish order book state
    ///
    /// Frames the encoded state and says what to do with the frame.
    pub fn publish(&self, payload: &[u8]) -> (delivery: Delivery)
        ensures
            match delivery {
                Delivery::Write(bytes) => self@.connected && payload@.len() <= u32::MAX && bytes@
                    == frame_of(payload@),
                Delivery::ConnectAndWrite(bytes) => !self@.connected && payload@.len() <= u32::MAX
                    && bytes@ == frame_of(payload@),
                Delivery::Skip => payload@.len() > u32::MAX,
            },
    {
        match frame(payload) {
            Some(bytes) => {
                if self.connected {
                    Delivery::Write(bytes)
                } else {
                    Delivery::ConnectAndWrite(bytes)
                }
            },
            None => Delivery::Skip,
        }
    }

    /// Notes how an attempt to connect ended.
    pub fn connect(&mut self, succeeded: bool)
        ensures
            final(self)@ == (PublisherView { connected: succeeded, ..old(self)@ }),
    {
        self.connected = succeeded;
    }

    /// Notes how a write ended: a failed write drops the connection, so
    /// that the next publish connects afresh.
    pub fn written(&mut self, succeeded: bool)
        ensures
            final(self)@ == (PublisherView {
                connected: old(self)@.connected && succeeded,
                ..old(self)@
            }),
    {
        if !succeeded {
            self.connected = false;
        }
    }
}

} // verus!
