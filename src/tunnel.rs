use vstd::prelude::*;
use vstd::utf8::*;
use crate::http::{
    connect_outcome, domain_bytes, get_domain_from_host, has_colon, parse_connect_request_host,
    OVERFLOW_LIMIT,
};
use crate::reader::{request_complete, ReadEvent, ReadStep, RequestReader};

verus! {

/// `HTTP/1.1 200 Connection Established\r\n\r\n`, sent to the client once a
/// direct tunnel is open.
pub open spec fn connect_response_bytes() -> Seq<u8> {
    seq![
        72u8, 84u8, 84u8, 80u8, 47u8, 49u8, 46u8, 49u8, 32u8, 50u8, 48u8, 48u8, 32u8, 67u8,
        111u8, 110u8, 110u8, 101u8, 99u8, 116u8, 105u8, 111u8, 110u8, 32u8, 69u8, 115u8, 116u8,
        97u8, 98u8, 108u8, 105u8, 115u8, 104u8, 101u8, 100u8, 13u8, 10u8, 13u8, 10u8,
    ]
}

/// `HTTP/1.1 400 Bad Request\r\n\r\n`, sent to the client when its domain is
/// blocked.
pub open spec fn bad_request_bytes() -> Seq<u8> {
    seq![
        72u8, 84u8, 84u8, 80u8, 47u8, 49u8, 46u8, 49u8, 32u8, 52u8, 48u8, 48u8, 32u8, 66u8,
        97u8, 100u8, 32u8, 82u8, 101u8, 113u8, 117u8, 101u8, 115u8, 116u8, 13u8, 10u8, 13u8,
        10u8,
    ]
}

/// The success response for a direct tunnel.
pub fn connect_response() -> (r: Vec<u8>)
    ensures
        r@ == connect_response_bytes(),
{
    let r: Vec<u8> = vec![
        72u8, 84u8, 84u8, 80u8, 47u8, 49u8, 46u8, 49u8, 32u8, 50u8, 48u8, 48u8, 32u8, 67u8,
        111u8, 110u8, 110u8, 101u8, 99u8, 116u8, 105u8, 111u8, 110u8, 32u8, 69u8, 115u8, 116u8,
        97u8, 98u8, 108u8, 105u8, 115u8, 104u8, 101u8, 100u8, 13u8, 10u8, 13u8, 10u8,
    ];
    assert(r@ =~= connect_response_bytes());
    r
}

/// The rejection response for a blocked domain.
pub fn bad_request() -> (r: Vec<u8>)
    ensures
        r@ == bad_request_bytes(),
{
    let r: Vec<u8> = vec![
        72u8, 84u8, 84u8, 80u8, 47u8, 49u8, 46u8, 49u8, 32u8, 52u8, 48u8, 48u8, 32u8, 66u8,
        97u8, 100u8, 32u8, 82u8, 101u8, 113u8, 117u8, 101u8, 115u8, 116u8, 13u8, 10u8, 13u8,
        10u8,
    ];
    assert(r@ =~= bad_request_bytes());
    r
}

/// How a connection is served once its request is known.
#[derive(Debug, Clone, Copy, PartialEq, Eq, Structural)]
pub enum TunnelDecision {
    /// The domain is blocked: answer 400 and close.
    Rejected,
    /// Connect to the requested `host:port` and answer 200.
    Direct,
    /// Connect to the forward address and hand it the original request.
    Chained,
}

/// Where a connection stands.
#[derive(Debug, Clone, Copy, PartialEq, Eq, Structural)]
pub enum Phase {
    /// Reading the CONNECT request.
    Reading,
    /// Waiting for the blocklist's verdict on the domain.
    PolicyCheck,
    /// Waiting for the outbound connection.
    Connecting,
    /// Copying bytes both ways.
    Splicing,
    /// Done; both ends are to be closed.
    Closed,
}

/// What the caller observed since the last action.
pub enum TunnelEvent {
    /// The outcome of a read of the client.
    Read(ReadEvent),
    /// The blocklist's answer: `true` when the domain is blocked.
    Verdict(bool),
    /// The blocklist lookup failed.
    LookupFailed,
    /// The outbound connection is open.
    Connected,
    /// The outbound connection could not be opened.
    ConnectFailed,
    /// A write failed, or the splice ended.
    Ended,
}

/// What the caller is to do next.
pub enum TunnelAction {
    /// Read at most this many bytes from the client.
    Read(usize),
    /// Ask the blocklist whether this domain is blocked.
    Lookup(String),
    /// Write these bytes to the client, then close it.
    Reject(Vec<u8>),
    /// Open a connection to this `host:port`.
    ConnectTarget(String),
    /// Open a connection to the forward address.
    ConnectUpstream,
    /// Write `to_client` to the client and `to_upstream` to the outbound
    /// connection, then copy bytes both ways until either side closes.
    Establish { to_client: Vec<u8>, to_upstream: Vec<u8> },
    /// Close every open end.
    Close,
}

/// The control state of one proxied connection.
pub struct Tunnel {
    phase: Phase,
    terminal: bool,
    reader: RequestReader,
    request: Vec<u8>,
    host: String,
    decision: Option<TunnelDecision>,
}

/// `t` is closed and the action is to close.
pub open spec fn closes(t: Tunnel, r: TunnelAction) -> bool {
    t.phase_spec() == Phase::Closed && r is Close
}

/// The transition once the whole request `req` has been read.
pub open spec fn admitted(req: Seq<u8>, t1: Tunnel, r: TunnelAction) -> bool {
    match connect_outcome(req) {
        Ok(Some(h)) => if has_colon(encode_utf8(h)) {
            &&& t1.phase_spec() == Phase::PolicyCheck
            &&& t1.request_spec() == req
            &&& t1.host_spec() == h
            &&& r matches TunnelAction::Lookup(d) && encode_utf8(d@) == domain_bytes(encode_utf8(h))
        } else {
            closes(t1, r)
        },
        _ => closes(t1, r),
    }
}

/// The transition on a read of the client while reading the request.
pub open spec fn reading(t0: Tunnel, re: ReadEvent, t1: Tunnel, r: TunnelAction) -> bool {
    match re {
        ReadEvent::Data(d) => {
            let buf = t0.reader_spec() + d@;
            if d@.len() == 0 || buf.len() > OVERFLOW_LIMIT {
                closes(t1, r)
            } else if request_complete(buf) {
                admitted(buf, t1, r)
            } else if buf.len() == OVERFLOW_LIMIT {
                closes(t1, r)
            } else {
                &&& t1.phase_spec() == Phase::Reading
                &&& t1.reader_spec() == buf
                &&& r matches TunnelAction::Read(n) && n == OVERFLOW_LIMIT - buf.len()
            }
        },
        _ => closes(t1, r),
    }
}

/// The transition on the blocklist's verdict.
pub open spec fn judged(t0: Tunnel, blocked: bool, t1: Tunnel, r: TunnelAction) -> bool {
    if blocked {
        &&& t1.phase_spec() == Phase::Closed
        &&& t1.decision_spec() == Some(TunnelDecision::Rejected)
        &&& r matches TunnelAction::Reject(b) && b@ == bad_request_bytes()
    } else if t0.terminal_spec() {
        &&& t1.phase_spec() == Phase::Connecting
        &&& t1.decision_spec() == Some(TunnelDecision::Direct)
        &&& r matches TunnelAction::ConnectTarget(h) && h@ == t0.host_spec()
    } else {
        &&& t1.phase_spec() == Phase::Connecting
        &&& t1.decision_spec() == Some(TunnelDecision::Chained)
        &&& r is ConnectUpstream
    }
}

/// The transition once the outbound connection is open.
pub open spec fn connected(t0: Tunnel, t1: Tunnel, r: TunnelAction) -> bool {
    &&& t1.phase_spec() == Phase::Splicing
    &&& t0.decision_spec() == Some(TunnelDecision::Direct) ==> (r matches TunnelAction::Establish {
        to_client,
        to_upstream,
    } && to_client@ == connect_response_bytes() && to_upstream@.len() == 0)
    &&& t0.decision_spec() == Some(TunnelDecision::Chained) ==> (r matches TunnelAction::Establish {
        to_client,
        to_upstream,
    } && to_client@.len() == 0 && to_upstream@ == t0.request_spec())
}

/// One step of the connection state machine, from `t0` on `ev` to `t1`
/// with action `r`.
pub open spec fn step_spec(t0: Tunnel, ev: TunnelEvent, t1: Tunnel, r: TunnelAction) -> bool {
    &&& t1.terminal_spec() == t0.terminal_spec()
    &&& t0.decision_spec() is Some ==> t1.decision_spec() == t0.decision_spec()
    &&& t0.phase_spec() != Phase::Reading ==> t1.request_spec() == t0.request_spec()
    &&& match (t0.phase_spec(), ev) {
        (Phase::Reading, TunnelEvent::Read(re)) => reading(t0, re, t1, r),
        (Phase::PolicyCheck, TunnelEvent::Verdict(blocked)) => judged(t0, blocked, t1, r),
        (Phase::Connecting, TunnelEvent::Connected) => connected(t0, t1, r),
        _ => closes(t1, r),
    }
}

impl Tunnel {
    /// The current phase.
    pub closed spec fn phase_spec(&self) -> Phase {
        self.phase
    }

    /// Whether this proxy connects to targets itself rather than chaining.
    pub closed spec fn terminal_spec(&self) -> bool {
        self.terminal
    }

    /// The request bytes read so far, while reading.
    pub closed spec fn reader_spec(&self) -> Seq<u8> {
        self.reader@
    }

    /// The whole request, once read.
    pub closed spec fn request_spec(&self) -> Seq<u8> {
        self.request@
    }

    /// The requested `host:port`, once parsed.
    pub closed spec fn host_spec(&self) -> Seq<char> {
        self.host@
    }

    /// The decision, once made.
    pub closed spec fn decision_spec(&self) -> Option<TunnelDecision> {
        self.decision
    }

    /// The reader's buffer fits, no decision is made before the verdict, and
    /// a connection being connected or spliced has decided to connect.
    pub open spec fn wf(&self) -> bool {
        &&& self.reader_spec().len() <= OVERFLOW_LIMIT
        &&& (self.phase_spec() == Phase::Reading || self.phase_spec() == Phase::PolicyCheck)
            ==> self.decision_spec() is None
        &&& (self.phase_spec() == Phase::Connecting || self.phase_spec() == Phase::Splicing)
            ==> (self.decision_spec() == Some(TunnelDecision::Direct) || self.decision_spec()
            == Some(TunnelDecision::Chained))
    }

    /// A connection that has just been accepted. `terminal` tells whether
    /// this proxy's listen address equals its forward address.
    pub fn new(terminal: bool) -> (r: Tunnel)
        ensures
            r.wf(),
            r.phase_spec() == Phase::Reading,
            r.terminal_spec() == terminal,
            r.reader_spec() == Seq::<u8>::empty(),
            r.decision_spec() is None,
    {
        Tunnel {
            phase: Phase::Reading,
            terminal,
            reader: RequestReader::new(),
            request: Vec::new(),
            host: String::new(),
            decision: None,
        }
    }

    /// The first action: read the request.
    pub fn start(&self) -> (r: TunnelAction)
        requires
            self.wf(),
        ensures
            r matches TunnelAction::Read(n) && n == OVERFLOW_LIMIT - self.reader_spec().len(),
    {
        TunnelAction::Read(self.reader.room())
    }

    /// The current phase.
    pub fn phase(&self) -> (r: Phase)
        ensures
            r == self.phase_spec(),
    {
        self.phase
    }

    /// The decision, once made.
    pub fn decision(&self) -> (r: Option<TunnelDecision>)
        ensures
            r == self.decision_spec(),
    {
        self.decision
    }

    /// The whole request as read from the client.
    pub fn request(&self) -> (r: &Vec<u8>)
        ensures
            r@ == self.request_spec(),
    {
        &self.request
    }

    fn close(&mut self) -> (r: TunnelAction)
        requires
            old(self).wf(),
        ensures
            final(self).wf(),
            closes(*final(self), r),
            final(self).terminal_spec() == old(self).terminal_spec(),
            final(self).decision_spec() == old(self).decision_spec(),
            final(self).request_spec() == old(self).request_spec(),
    {
        self.phase = Phase::Closed;
        TunnelAction::Close
    }

    /// Takes in a whole request: parses it and extracts the domain to look up.
    fn accept_request(&mut self, req: Vec<u8>) -> (r: TunnelAction)
        requires
            old(self).wf(),
            old(self).phase_spec() == Phase::Reading,
        ensures
            final(self).wf(),
            admitted(req@, *final(self), r),
            final(self).terminal_spec() == old(self).terminal_spec(),
            final(self).decision_spec() == old(self).decision_spec(),
    {
        match parse_connect_request_host(req.as_slice()) {
            Ok(Some(h)) => {
                match get_domain_from_host(h.as_str()) {
                    Ok(d) => {
                        self.request = req;
                        self.host = h;
                        self.phase = Phase::PolicyCheck;
                        TunnelAction::Lookup(d)
                    },
                    Err(_) => self.close(),
                }
            },
            _ => self.close(),
        }
    }

    /// Advances the connection on one event and says what to do next.
    pub fn step(&mut self, ev: TunnelEvent) -> (r: TunnelAction)
        requires
            old(self).wf(),
        ensures
            final(self).wf(),
            step_spec(*old(self), ev, *final(self), r),
    {
        match ev {
            TunnelEvent::Read(re) => {
                if self.phase != Phase::Reading {
                    return self.close();
                }
                match self.reader.on_event(re) {
                    ReadStep::Continue => TunnelAction::Read(self.reader.room()),
                    ReadStep::Done => {
                        let mut fresh = RequestReader::new();
                        std::mem::swap(&mut self.reader, &mut fresh);
                        let req = fresh.into_request();
                        self.accept_request(req)
                    },
                    ReadStep::Fail(_) => self.close(),
                }
            },
            TunnelEvent::Verdict(blocked) => {
                if self.phase != Phase::PolicyCheck {
                    return self.close();
                }
                if blocked {
                    self.decision = Some(TunnelDecision::Rejected);
                    self.phase = Phase::Closed;
                    TunnelAction::Reject(bad_request())
                } else if self.terminal {
                    self.decision = Some(TunnelDecision::Direct);
                    self.phase = Phase::Connecting;
                    TunnelAction::ConnectTarget(self.host.clone())
                } else {
                    self.decision = Some(TunnelDecision::Chained);
                    self.phase = Phase::Connecting;
                    TunnelAction::ConnectUpstream
                }
            },
            TunnelEvent::Connected => {
                if self.phase != Phase::Connecting {
                    return self.close();
                }
                self.phase = Phase::Splicing;
                match self.decision {
                    Some(TunnelDecision::Direct) => TunnelAction::Establish {
                        to_client: connect_response(),
                        to_upstream: Vec::new(),
                    },
                    _ => TunnelAction::Establish {
                        to_client: Vec::new(),
                        to_upstream: self.request.clone(),
                    },
                }
            },
            _ => self.close(),
        }
    }
}

} // verus!
