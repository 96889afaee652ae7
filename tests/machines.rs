use noadproxy::admission::{AdmissionGate, MAX_CONCURRENT};
use noadproxy::blocklist::{blocklist_entry, entry_of_trimmed};
use noadproxy::error::ProxyError;
use noadproxy::http::OVERFLOW_LIMIT;
use noadproxy::reader::{ReadEvent, ReadStep, RequestReader};
use noadproxy::tunnel::{bad_request, connect_response, Phase, Tunnel, TunnelAction, TunnelDecision, TunnelEvent};

const REQUEST: &[u8] = b"CONNECT example.com:443 HTTP/1.1\r\nHost: example.com\r\n\r\n";

fn read(t: &mut Tunnel, bytes: &[u8]) -> TunnelAction {
    t.step(TunnelEvent::Read(ReadEvent::Data(bytes.to_vec())))
}

#[test]
fn reader_collects_request_across_reads() {
    let mut r = RequestReader::new();
    assert_eq!(r.room(), OVERFLOW_LIMIT);
    assert!(matches!(r.on_event(ReadEvent::Data(REQUEST[..20].to_vec())), ReadStep::Continue));
    assert_eq!(r.room(), OVERFLOW_LIMIT - 20);
    assert!(!r.is_complete());
    assert!(matches!(r.on_event(ReadEvent::Data(REQUEST[20..].to_vec())), ReadStep::Done));
    assert!(r.is_complete());
    assert_eq!(r.into_request(), REQUEST.to_vec());
}

#[test]
fn reader_needs_enough_bytes() {
    let mut r = RequestReader::new();
    assert!(matches!(r.on_event(ReadEvent::Data(b"GET / HTTP/1.1\r\n\r\n".to_vec())), ReadStep::Continue));
}

#[test]
fn reader_failures() {
    let mut r = RequestReader::new();
    assert!(matches!(r.on_event(ReadEvent::Data(Vec::new())), ReadStep::Fail(ProxyError::Eof)));
    let mut r = RequestReader::new();
    assert!(matches!(r.on_event(ReadEvent::TimedOut), ReadStep::Fail(ProxyError::Timeout)));
    let mut r = RequestReader::new();
    assert!(matches!(r.on_event(ReadEvent::Failed), ReadStep::Fail(ProxyError::IoFailure)));
    let mut r = RequestReader::new();
    assert!(matches!(r.on_event(ReadEvent::Data(vec![b'a'; OVERFLOW_LIMIT])), ReadStep::Fail(ProxyError::Overflow)));
    let mut r = RequestReader::new();
    assert!(matches!(r.on_event(ReadEvent::Data(vec![b'a'; OVERFLOW_LIMIT + 1])), ReadStep::Fail(ProxyError::Overflow)));
}

#[test]
fn gate_never_exceeds_capacity() {
    let mut g = AdmissionGate::standard();
    assert_eq!(g.capacity(), MAX_CONCURRENT);
    for _ in 0..MAX_CONCURRENT {
        assert!(g.try_acquire());
    }
    assert_eq!(g.available(), 0);
    assert!(!g.try_acquire());
    assert!(!g.try_acquire());
    g.release();
    assert_eq!(g.available(), 1);
    assert!(g.try_acquire());
    assert!(!g.try_acquire());
    for _ in 0..(MAX_CONCURRENT + 5) {
        g.release();
    }
    assert_eq!(g.available(), MAX_CONCURRENT);
}

#[test]
fn gate_warns_at_a_tenth() {
    let mut g = AdmissionGate::new(1000);
    for _ in 0..899 {
        g.try_acquire();
    }
    assert_eq!(g.available(), 101);
    assert!(!g.is_low());
    g.try_acquire();
    assert_eq!(g.available(), 100);
    assert!(g.is_low());
}

#[test]
fn direct_tunnel_scenario() {
    let mut t = Tunnel::new(true);
    assert!(matches!(t.start(), TunnelAction::Read(n) if n == OVERFLOW_LIMIT));
    match read(&mut t, REQUEST) {
        TunnelAction::Lookup(d) => assert_eq!(d, "example.com"),
        _ => panic!("expected a lookup"),
    }
    assert_eq!(t.phase(), Phase::PolicyCheck);
    match t.step(TunnelEvent::Verdict(false)) {
        TunnelAction::ConnectTarget(h) => assert_eq!(h, "example.com:443"),
        _ => panic!("expected a direct connect"),
    }
    assert_eq!(t.decision(), Some(TunnelDecision::Direct));
    match t.step(TunnelEvent::Connected) {
        TunnelAction::Establish { to_client, to_upstream } => {
            assert_eq!(to_client, b"HTTP/1.1 200 Connection Established\r\n\r\n".to_vec());
            assert!(to_upstream.is_empty());
        }
        _ => panic!("expected the tunnel"),
    }
    assert_eq!(t.phase(), Phase::Splicing);
    assert!(matches!(t.step(TunnelEvent::Ended), TunnelAction::Close));
    assert_eq!(t.phase(), Phase::Closed);
}

#[test]
fn blocked_domain_scenario() {
    let mut t = Tunnel::new(true);
    assert!(matches!(read(&mut t, REQUEST), TunnelAction::Lookup(_)));
    match t.step(TunnelEvent::Verdict(true)) {
        TunnelAction::Reject(bytes) => assert_eq!(bytes, b"HTTP/1.1 400 Bad Request\r\n\r\n".to_vec()),
        _ => panic!("expected a rejection"),
    }
    assert_eq!(t.phase(), Phase::Closed);
    assert_eq!(t.decision(), Some(TunnelDecision::Rejected));
    assert!(matches!(t.step(TunnelEvent::Connected), TunnelAction::Close));
    assert_eq!(t.decision(), Some(TunnelDecision::Rejected));
}

#[test]
fn chained_scenario() {
    let mut t = Tunnel::new(false);
    assert!(matches!(read(&mut t, &REQUEST[..10]), TunnelAction::Read(_)));
    match read(&mut t, &REQUEST[10..]) {
        TunnelAction::Lookup(d) => assert_eq!(d, "example.com"),
        _ => panic!("expected a lookup"),
    }
    assert!(matches!(t.step(TunnelEvent::Verdict(false)), TunnelAction::ConnectUpstream));
    assert_eq!(t.decision(), Some(TunnelDecision::Chained));
    match t.step(TunnelEvent::Connected) {
        TunnelAction::Establish { to_client, to_upstream } => {
            assert!(to_client.is_empty());
            assert_eq!(to_upstream, REQUEST.to_vec());
        }
        _ => panic!("expected the tunnel"),
    }
    assert_eq!(t.request(), &REQUEST.to_vec());
}

#[test]
fn malformed_request_closes_silently() {
    let mut t = Tunnel::new(true);
    let buf = b"GET / HTTP/1.1\r\nHost: example.com\r\n\r\n";
    assert!(matches!(read(&mut t, buf), TunnelAction::Close));
    assert_eq!(t.phase(), Phase::Closed);
    assert_eq!(t.decision(), None);
}

#[test]
fn failures_close_the_connection() {
    let mut t = Tunnel::new(true);
    assert!(matches!(t.step(TunnelEvent::Read(ReadEvent::TimedOut)), TunnelAction::Close));
    let mut t = Tunnel::new(true);
    assert!(matches!(read(&mut t, b""), TunnelAction::Close));
    let mut t = Tunnel::new(true);
    read(&mut t, REQUEST);
    assert!(matches!(t.step(TunnelEvent::LookupFailed), TunnelAction::Close));
    let mut t = Tunnel::new(true);
    read(&mut t, REQUEST);
    t.step(TunnelEvent::Verdict(false));
    assert!(matches!(t.step(TunnelEvent::ConnectFailed), TunnelAction::Close));
    assert_eq!(t.phase(), Phase::Closed);
}

#[test]
fn response_bytes() {
    assert_eq!(connect_response().len(), 39);
    assert_eq!(bad_request().len(), 28);
}

#[test]
fn blocklist_lines() {
    assert_eq!(blocklist_entry("  ads.example.com \r"), Some("ads.example.com".to_string()));
    assert_eq!(blocklist_entry("tracker.net"), Some("tracker.net".to_string()));
    assert_eq!(blocklist_entry(" \t "), None);
    assert_eq!(blocklist_entry(""), None);
    assert_eq!(entry_of_trimmed(String::new()), None);
    assert_eq!(entry_of_trimmed("x.org".to_string()), Some("x.org".to_string()));
}
