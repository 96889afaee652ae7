use vstd::prelude::*;

verus! {

/// Why a connection was given up before a tunnel was established.
#[derive(Debug, Clone, Copy, PartialEq, Eq, Structural)]
pub enum ProxyError {
    /// Bad verb, bad request line shape, bad host pattern or bad UTF-8.
    Malformed,
    /// The request grew past the size bound before it was complete.
    Overflow,
    /// A read of the request took longer than the allowed time.
    Timeout,
    /// The peer closed the connection before a complete request arrived.
    Eof,
    /// A connect, read or write failed.
    IoFailure,
}

impl ProxyError {
    /// A short human-readable description of the error.
    pub fn describe(&self) -> (r: String) {
        match self {
            ProxyError::Malformed => String::from_str("malformed CONNECT request"),
            ProxyError::Overflow => String::from_str("CONNECT request exceeds maximum request size"),
            ProxyError::Timeout => String::from_str("timed out reading CONNECT request"),
            ProxyError::Eof => String::from_str("unexpected EOF before a complete CONNECT request"),
            ProxyError::IoFailure => String::from_str("I/O failure"),
        }
    }
}

} // verus!
