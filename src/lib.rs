//! A CONNECT-method HTTPS forward proxy core that refuses tunnels to blocked
//! domains and can relay through an upstream proxy.
//!
//! The library holds the request parser, the incremental request reader, the
//! admission gate and the per-connection tunnel state machine. Sockets, the
//! blocklist store and configuration loading live with the caller.
pub mod admission;
pub mod blocklist;
pub mod error;
pub mod http;
pub mod reader;
pub mod tunnel;
