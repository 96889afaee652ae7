use vstd::prelude::*;
use crate::error::ProxyError;
use crate::http::{crlf2, occurs_at, pattern_at, OVERFLOW_LIMIT, UNDERFLOW_LIMIT};

verus! {

/// The accumulated bytes hold a whole request: at least `UNDERFLOW_LIMIT`
/// bytes, the last four of them `\r\n\r\n`.
pub open spec fn request_complete(b: Seq<u8>) -> bool {
    b.len() >= UNDERFLOW_LIMIT && pattern_at(b, b.len() - 4, crlf2())
}

/// What one attempt to read from the client gave.
pub enum ReadEvent {
    /// The bytes read; none means the peer closed the connection.
    Data(Vec<u8>),
    /// The attempt took longer than the allowed time.
    TimedOut,
    /// The read failed.
    Failed,
}

/// What the reader asks for after an event.
pub enum ReadStep {
    /// Read again, at most `room()` bytes.
    Continue,
    /// The request is complete; take it with `into_request`.
    Done,
    /// Reading failed; drop the connection.
    Fail(ProxyError),
}

/// Accumulates the bytes of one CONNECT request in a buffer of at most
/// `OVERFLOW_LIMIT` bytes.
pub struct RequestReader {
    buf: Vec<u8>,
}

impl View for RequestReader {
    type V = Seq<u8>;

    closed spec fn view(&self) -> Seq<u8> {
        self.buf@
    }
}

impl RequestReader {
    /// The buffer stays within its capacity.
    pub open spec fn wf(&self) -> bool {
        self@.len() <= OVERFLOW_LIMIT
    }

    /// An empty reader.
    pub fn new() -> (r: RequestReader)
        ensures
            r.wf(),
            r@ == Seq::<u8>::empty(),
    {
        RequestReader { buf: Vec::new() }
    }

    /// How many more bytes the buffer can take.
    pub fn room(&self) -> (r: usize)
        requires
            self.wf(),
        ensures
            r == OVERFLOW_LIMIT - self@.len(),
    {
        OVERFLOW_LIMIT - self.buf.len()
    }

    /// Whether the bytes so far hold a whole request.
    pub fn is_complete(&self) -> (r: bool)
        ensures
            r == request_complete(self@),
    {
        let n = self.buf.len();
        if n < UNDERFLOW_LIMIT {
            return false;
        }
        let crlf2_bytes: Vec<u8> = vec![13u8, 10u8, 13u8, 10u8];
        assert(crlf2_bytes@ =~= crlf2());
        occurs_at(self.buf.as_slice(), n - 4, &crlf2_bytes)
    }

    /// Takes in the outcome of one read. Bytes are appended; the request is
    /// done once it is complete. No bytes (the peer closed), a timeout or a
    /// failed read end reading, and so does a full buffer that still does not
    /// hold a whole request, or more bytes than fit.
    pub fn on_event(&mut self, ev: ReadEvent) -> (r: ReadStep)
        requires
            old(self).wf(),
        ensures
            final(self).wf(),
            match ev {
                ReadEvent::TimedOut => r == ReadStep::Fail(ProxyError::Timeout) && final(self)@ == old(
                    self,
                )@,
                ReadEvent::Failed => r == ReadStep::Fail(ProxyError::IoFailure) && final(self)@
                    == old(self)@,
                ReadEvent::Data(d) => if d@.len() == 0 {
                    r == ReadStep::Fail(ProxyError::Eof) && final(self)@ == old(self)@
                } else if old(self)@.len() + d@.len() > OVERFLOW_LIMIT {
                    r == ReadStep::Fail(ProxyError::Overflow) && final(self)@ == old(self)@
                } else {
                    &&& final(self)@ == old(self)@ + d@
                    &&& request_complete(final(self)@) ==> r == ReadStep::Done
                    &&& !request_complete(final(self)@) && final(self)@.len() == OVERFLOW_LIMIT
                        ==> r == ReadStep::Fail(ProxyError::Overflow)
                    &&& !request_complete(final(self)@) && final(self)@.len() < OVERFLOW_LIMIT
                        ==> r == ReadStep::Continue
                },
            },
    {
        match ev {
            ReadEvent::TimedOut => ReadStep::Fail(ProxyError::Timeout),
            ReadEvent::Failed => ReadStep::Fail(ProxyError::IoFailure),
            ReadEvent::Data(d) => {
                let mut d = d;
                if d.len() == 0 {
                    return ReadStep::Fail(ProxyError::Eof);
                }
                if d.len() > OVERFLOW_LIMIT - self.buf.len() {
                    return ReadStep::Fail(ProxyError::Overflow);
                }
                self.buf.append(&mut d);
                if self.is_complete() {
                    ReadStep::Done
                } else if self.buf.len() == OVERFLOW_LIMIT {
                    ReadStep::Fail(ProxyError::Overflow)
                } else {
                    ReadStep::Continue
                }
            },
        }
    }

    /// The bytes read so far.
    pub fn into_request(self) -> (r: Vec<u8>)
        ensures
            r@ == self@,
    {
        self.buf
    }
}

} // verus!
