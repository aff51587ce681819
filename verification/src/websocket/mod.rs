//! Connection management for the exchange stream: what to do with each
//! frame, when to reconnect, and how a book is brought in step with the
//! diff stream.

pub mod client;
pub mod manager;
pub mod sync;

pub use client::{Frame, Inbound, Reception, WebSocketClient};
pub use manager::{
    event_after, Action, ConnectionState, Event, RetryPolicy, WebSocketManager,
};
pub use sync::{DepthSync, Processed, SnapshotOutcome, SyncPhase, Synchronizer, Verdict};
