//! A session-oriented protocol engine for a vector-index service.
//!
//! Clients connect over a transport and exchange messages with a session
//! driver.  Each top-level request is dispatched into a sub-protocol: most are
//! a single request/reply round trip, but delete and prefiltered search embed
//! a server-initiated callback loop (one accept/reject round trip per
//! candidate record), and the vbase call streams ranked results on demand
//! until the client leaves.
//!
//! The protocol state is carried by single-use handles: advancing a handle
//! consumes it by value, so a consumed handle can never be advanced again.

pub mod endpoint;
pub mod handle;
pub mod msg;
pub mod session;
pub mod worker;
