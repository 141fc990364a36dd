//! Streaming order-entry session for a trading venue: the wire encoding of
//! order commands, the session's connection state and the per-frame
//! decisions of the event loop, together with the library's error taxonomy.

pub mod error;
pub mod order;
pub mod wire;
pub mod decode;
pub mod session;
pub mod event_loop;
