use noadproxy::error::ProxyError;
use noadproxy::http::{
    finish_connect_request, get_domain_from_host, parse_connect_request_host, scan_for,
    scan_request_line, find_spaces, RequestLine, Scan, OVERFLOW_LIMIT, UNDERFLOW_LIMIT,
};

const REQUEST: &[u8] = b"CONNECT example.com:443 HTTP/1.1\r\nHost: example.com\r\n\r\n";

#[test]
fn short_buffers_need_more_data() {
    for n in 0..=UNDERFLOW_LIMIT {
        let zeros = vec![0u8; n];
        assert_eq!(parse_connect_request_host(&zeros), Ok(None));
        let garbage = vec![b'G'; n];
        assert_eq!(parse_connect_request_host(&garbage), Ok(None));
    }
    // A complete but short non-CONNECT request still only asks for more bytes.
    assert_eq!(parse_connect_request_host(b"GET / HTTP/1.1\r\n\r\n"), Ok(None));
}

#[test]
fn wrong_verb_is_malformed() {
    let buf = b"GET / HTTP/1.1\r\nHost: example.com\r\n\r\n";
    assert!(buf.len() > UNDERFLOW_LIMIT);
    assert_eq!(parse_connect_request_host(buf), Err(ProxyError::Malformed));
    let lower = b"connect example.com:443 HTTP/1.1\r\n\r\n";
    assert_eq!(parse_connect_request_host(lower), Err(ProxyError::Malformed));
    let mut long = b"POST /upload HTTP/1.1\r\n".to_vec();
    long.extend(vec![b'x'; 5000]);
    assert_eq!(parse_connect_request_host(&long), Err(ProxyError::Malformed));
}

#[test]
fn valid_request_gives_host() {
    assert_eq!(parse_connect_request_host(REQUEST), Ok(Some("example.com:443".to_string())));
    let no_headers = b"CONNECT example.com:443 HTTP/1.1\r\n\r\n";
    assert_eq!(parse_connect_request_host(no_headers), Ok(Some("example.com:443".to_string())));
    let ipv4 = b"CONNECT 10.0.0.1:8080 HTTP/1.1\r\n\r\n";
    assert_eq!(parse_connect_request_host(ipv4), Ok(Some("10.0.0.1:8080".to_string())));
    let dashed = b"CONNECT my-host.example-1.org:1 HTTP/1.0\r\nA: b\r\nC: d\r\n\r\n";
    assert_eq!(parse_connect_request_host(dashed), Ok(Some("my-host.example-1.org:1".to_string())));
}

#[test]
fn incomplete_headers_need_more_data() {
    let buf = b"CONNECT example.com:443 HTTP/1.1\r\nHost: example.com\r\n";
    assert_eq!(parse_connect_request_host(buf), Ok(None));
    let no_line_end = b"CONNECT example.com:443 HTTP/1.1 and more";
    assert_eq!(parse_connect_request_host(no_line_end), Ok(None));
}

#[test]
fn bad_line_is_malformed_every_time() {
    let cases: Vec<&[u8]> = vec![
        b"CONNECT example.com:443 HTTP/1.1 extra\r\n\r\n",
        b"CONNECT example.com:443HTTP/1.1\r\n\r\n\r\n\r\n",
        b"CONNECT  example.com:443 HTTP/1.1\r\n\r\n",
        b"CONNECT exa_mple.com:443 HTTP/1.1\r\n\r\n",
        b"CONNECT example.com HTTP/1.1\r\n\r\n\r\n\r\n",
        b"CONNECT example.com:https HTTP/1.1\r\n\r\n",
        b"CONNECT example.com:443 HTTP/\xff\xfe\r\n\r\n",
    ];
    for buf in cases {
        assert!(buf.len() > UNDERFLOW_LIMIT);
        let first = parse_connect_request_host(buf);
        assert_eq!(first, Err(ProxyError::Malformed));
        assert_eq!(parse_connect_request_host(buf), first);
    }
}

#[test]
fn malformed_verb_scenario() {
    let mut buf = b"GET / HTTP/1.1\r\n\r\n".to_vec();
    buf.extend_from_slice(b"Host: example.com\r\n\r\n");
    assert_eq!(parse_connect_request_host(&buf), Err(ProxyError::Malformed));
}

#[test]
fn oversized_request_overflows() {
    let mut buf = b"CONNECT ".to_vec();
    buf.extend(vec![b'a'; OVERFLOW_LIMIT + 10]);
    assert_eq!(parse_connect_request_host(&buf), Err(ProxyError::Overflow));

    let mut headers = b"CONNECT example.com:443 HTTP/1.1\r\n".to_vec();
    headers.extend(vec![b'h'; OVERFLOW_LIMIT + 10]);
    assert_eq!(parse_connect_request_host(&headers), Err(ProxyError::Overflow));
}

#[test]
fn line_end_at_the_bound() {
    // A `\r\n` starting exactly at the bound is still found.
    let mut buf = b"CONNECT ".to_vec();
    buf.extend(vec![b'a'; OVERFLOW_LIMIT - 8]);
    buf.extend_from_slice(b"\r\n");
    assert_eq!(parse_connect_request_host(&buf), Err(ProxyError::Malformed));
    // One position later it is not.
    let mut late = b"CONNECT ".to_vec();
    late.extend(vec![b'a'; OVERFLOW_LIMIT - 7]);
    late.extend_from_slice(b"\r\n");
    assert_eq!(parse_connect_request_host(&late), Err(ProxyError::Overflow));
}

#[test]
fn request_line_stages() {
    match scan_request_line(REQUEST) {
        Ok(Some(line)) => {
            assert_eq!(line.end, 32);
            assert_eq!(line.host, "example.com:443");
        }
        _ => panic!("expected a request line"),
    }
    let line = RequestLine { end: 32, host: "example.com:443".to_string() };
    assert_eq!(finish_connect_request(REQUEST, line, true), Ok(Some("example.com:443".to_string())));
    let line = RequestLine { end: 32, host: "example.com:443".to_string() };
    assert_eq!(finish_connect_request(REQUEST, line, false), Err(ProxyError::Malformed));
    let partial = b"CONNECT example.com:443 HTTP/1.1\r\nHost: a\r\n";
    let line = RequestLine { end: 32, host: "example.com:443".to_string() };
    assert_eq!(finish_connect_request(partial, line, true), Ok(None));
}

#[test]
fn scans_and_spaces() {
    let crlf = vec![13u8, 10u8];
    assert!(matches!(scan_for(b"ab\r\ncd", 0, &crlf), Scan::Found(2)));
    assert!(matches!(scan_for(b"ab\r\ncd", 3, &crlf), Scan::NeedMore));
    assert!(matches!(scan_for(&vec![b'z'; OVERFLOW_LIMIT + 5], 0, &crlf), Scan::TooLong));
    assert_eq!(find_spaces(b"a b c"), Some((1, 3)));
    assert_eq!(find_spaces(b"a b"), None);
    assert_eq!(find_spaces(b"a b c d"), None);
}

#[test]
fn domain_is_text_before_last_colon() {
    assert_eq!(get_domain_from_host("example.com:443"), Ok("example.com".to_string()));
    assert_eq!(get_domain_from_host("a:b:c"), Ok("a:b".to_string()));
    assert_eq!(get_domain_from_host(":80"), Ok("".to_string()));
    assert_eq!(get_domain_from_host("example.com"), Err(ProxyError::Malformed));
    assert_eq!(get_domain_from_host(""), Err(ProxyError::Malformed));
}

#[test]
fn domain_round_trips_with_port() {
    for d in ["example.com", "10.0.0.1", "ads.tracker.net", "[::1]", "é.example"] {
        for p in ["0", "443", "8080", "65535"] {
            let host = format!("{}:{}", d, p);
            assert_eq!(get_domain_from_host(&host), Ok(d.to_string()));
        }
    }
}

#[test]
fn errors_describe_themselves() {
    assert_eq!(ProxyError::Overflow.describe(), "CONNECT request exceeds maximum request size");
    assert_ne!(ProxyError::Malformed.describe(), ProxyError::Eof.describe());
}
