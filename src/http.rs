use vstd::prelude::*;
use vstd::string::*;
use vstd::utf8::*;
use crate::error::ProxyError;

verus! {

broadcast use vstd::string::group_string_axioms;

/// The byte value of `:`.
pub const COLON: u8 = 58;

/// True when `i` is the position of the last `:` byte in `b`.
pub open spec fn is_last_colon(b: Seq<u8>, i: int) -> bool {
    &&& 0 <= i < b.len()
    &&& b[i] == COLON
    &&& forall|j: int| i < j < b.len() ==> b[j] != COLON
}

/// True when `b` holds a `:` byte.
pub open spec fn has_colon(b: Seq<u8>) -> bool {
    exists|i: int| 0 <= i < b.len() && b[i] == COLON
}

/// The bytes before the last `:` of `b`.
pub open spec fn domain_bytes(b: Seq<u8>) -> Seq<u8>
    recommends
        has_colon(b),
{
    b.subrange(0, choose|i: int| is_last_colon(b, i))
}

/// Splits a `host:port` string into its domain: everything before the last
/// `:`. A string without `:` is refused as malformed.
pub fn get_domain_from_host(host: &str) -> (r: Result<String, ProxyError>)
    ensures
        r is Err <==> !has_colon(host.spec_bytes()),
        r is Err ==> r == Err::<String, ProxyError>(ProxyError::Malformed),
        r matches Ok(d) ==> encode_utf8(d@) == domain_bytes(host.spec_bytes()),
{
    let bytes = host.as_bytes();
    let mut i: usize = bytes.len();
    while i > 0
        invariant
            i <= bytes@.len(),
            bytes@ == host.spec_bytes(),
            forall|j: int| i <= j < bytes@.len() ==> bytes@[j] != COLON,
        decreases i,
    {
        if bytes[i - 1] == COLON {
            let k: usize = i - 1;
            proof {
                encode_utf8_valid_utf8(host@);
                is_char_boundary_iff_not_is_continuation_byte(host.spec_bytes(), k as int);
                assert(is_last_colon(bytes@, k as int));
                let c = choose|c: int| is_last_colon(bytes@, c);
                assert(c == k as int);
            }
            let (d, _) = host.split_at(k);
            let out = d.to_string();
            return Ok(out);
        }
        i = i - 1;
    }
    Err(ProxyError::Malformed)
}


/// Appending `:` and a port to a domain and then extracting the domain gives
/// the domain back, provided the port holds no `:`.
pub proof fn lemma_domain_of_host_port(d: Seq<u8>, port: Seq<u8>)
    requires
        forall|j: int| 0 <= j < port.len() ==> port[j] != COLON,
    ensures
        has_colon(d + seq![COLON] + port),
        domain_bytes(d + seq![COLON] + port) == d,
{
    let h = d + seq![COLON] + port;
    let n = d.len() as int;
    assert(h[n] == COLON);
    assert(is_last_colon(h, n));
    let c = choose|i: int| is_last_colon(h, i);
    if c < n {
        assert(h[n] != COLON);
    } else if c > n {
        assert(h[c] == port[c - n - 1]);
    }
    assert(h.subrange(0, n) =~= d);
}

/// Bytes that must be seen before parsing is attempted.
pub const UNDERFLOW_LIMIT: usize = 32;

/// Furthest position the scans for line and header terminators may reach.
pub const OVERFLOW_LIMIT: usize = 4096;

/// The byte value of a space.
pub const SPACE: u8 = 32;

/// `\r\n`, the end of a line.
pub open spec fn crlf() -> Seq<u8> {
    seq![13u8, 10u8]
}

/// `\r\n\r\n`, the end of the header section.
pub open spec fn crlf2() -> Seq<u8> {
    seq![13u8, 10u8, 13u8, 10u8]
}

/// The ASCII bytes of `CONNECT`.
pub open spec fn connect_verb() -> Seq<u8> {
    seq![67u8, 79u8, 78u8, 78u8, 69u8, 67u8, 84u8]
}

/// True when `p` occurs in `b` at position `i`.
pub open spec fn pattern_at(b: Seq<u8>, i: int, p: Seq<u8>) -> bool {
    0 <= i && i + p.len() <= b.len() && b.subrange(i, i + p.len()) == p
}

/// `k` is the first occurrence of `p` in `b` at or after `start`, and lies
/// within the scan bound.
pub open spec fn first_match_at(b: Seq<u8>, start: int, p: Seq<u8>, k: int) -> bool {
    &&& start <= k <= OVERFLOW_LIMIT
    &&& pattern_at(b, k, p)
    &&& forall|j: int| start <= j < k ==> !pattern_at(b, j, p)
}

/// A bounded scan for `p` from `start` finds it.
pub open spec fn scan_finds(b: Seq<u8>, start: int, p: Seq<u8>) -> bool {
    exists|k: int| first_match_at(b, start, p, k)
}

/// Where a bounded scan for `p` from `start` finds it.
pub open spec fn scan_pos(b: Seq<u8>, start: int, p: Seq<u8>) -> int {
    choose|k: int| first_match_at(b, start, p, k)
}

/// A scan that finds nothing runs out of bytes before it passes the bound
/// (rather than passing the bound first).
pub open spec fn scan_runs_out(b: Seq<u8>, start: int, p: Seq<u8>) -> bool {
    start <= OVERFLOW_LIMIT && b.len() - p.len() + 1 <= OVERFLOW_LIMIT
}

/// The line `l` holds exactly two spaces, at `p1` and `p2`.
pub open spec fn spaces_at(l: Seq<u8>, p1: int, p2: int) -> bool {
    &&& 0 <= p1 < p2 < l.len()
    &&& l[p1] == SPACE
    &&& l[p2] == SPACE
    &&& forall|i: int| 0 <= i < l.len() && i != p1 && i != p2 ==> l[i] != SPACE
}

/// Split on single spaces, the line `l` has exactly three tokens.
pub open spec fn three_tokens(l: Seq<u8>) -> bool {
    exists|p1: int, p2: int| spaces_at(l, p1, p2)
}

/// The bytes of the middle token of a three-token line.
pub open spec fn middle_token(l: Seq<u8>) -> Seq<u8>
    recommends
        three_tokens(l),
{
    let p = choose|p: (int, int)| spaces_at(l, p.0, p.1);
    l.subrange(p.0 + 1, p.1)
}

/// A request line (its `\r\n` included) that is UTF-8 and has three tokens.
pub open spec fn line_well_formed(l: Seq<u8>) -> bool {
    valid_utf8(l) && three_tokens(l)
}

/// The request line of `b`: everything up to and including its first `\r\n`.
pub open spec fn request_line(b: Seq<u8>) -> Seq<u8> {
    b.subrange(0, scan_pos(b, 0, crlf()) + 2)
}

/// What parsing the request line of `b` gives, before the host pattern is
/// consulted: more bytes are needed, an error, or the position of the line's
/// `\r\n`.
pub open spec fn line_outcome(b: Seq<u8>) -> Result<Option<int>, ProxyError> {
    if b.len() <= UNDERFLOW_LIMIT {
        Ok(None)
    } else if b.subrange(0, 7) != connect_verb() {
        Err(ProxyError::Malformed)
    } else if !scan_finds(b, 0, crlf()) {
        if scan_runs_out(b, 0, crlf()) {
            Ok(None)
        } else {
            Err(ProxyError::Overflow)
        }
    } else if !line_well_formed(request_line(b)) {
        Err(ProxyError::Malformed)
    } else {
        Ok(Some(scan_pos(b, 0, crlf())))
    }
}

/// What parsing gives once a well-formed request line ends at `c`, with
/// middle token `host` and the host pattern's verdict `host_ok` on it.
pub open spec fn rest_outcome(b: Seq<u8>, c: int, host: Seq<char>, host_ok: bool) -> Result<
    Option<Seq<char>>,
    ProxyError,
> {
    if !host_ok {
        Err(ProxyError::Malformed)
    } else if scan_finds(b, c, crlf2()) {
        Ok(Some(host))
    } else if scan_runs_out(b, c, crlf2()) {
        Ok(None)
    } else {
        Err(ProxyError::Overflow)
    }
}

/// The host text of a request whose line outcome is `Ok(Some(_))`.
pub open spec fn host_text(b: Seq<u8>) -> Seq<char> {
    decode_utf8(middle_token(request_line(b)))
}

/// What parsing the buffer `b` gives: `Ok(None)` when more bytes are needed,
/// `Ok(Some(host))` with the `host:port` text of a complete request, or an
/// error.
pub open spec fn connect_outcome(b: Seq<u8>) -> Result<Option<Seq<char>>, ProxyError> {
    match line_outcome(b) {
        Ok(Some(c)) => rest_outcome(b, c, host_text(b), host_pattern_match(host_text(b))),
        Ok(None) => Ok(None),
        Err(e) => Err(e),
    }
}

/// The executable result `r` is the outcome `o`.
pub open spec fn reports(r: Result<Option<String>, ProxyError>, o: Result<Option<Seq<char>>, ProxyError>) -> bool {
    match o {
        Ok(None) => r matches Ok(None),
        Ok(Some(h)) => r matches Ok(Some(s)) && s@ == h,
        Err(e) => r matches Err(e2) && e2 == e,
    }
}

/// Whether a string is a `host:port` the proxy accepts: a hostname of
/// letters, digits, `.` and `-`, or a dotted IPv4 literal, then `:` and
/// digits.
pub uninterp spec fn host_pattern_match(s: Seq<char>) -> bool;

/// Relies on regex::Regex::new, which compiles the pattern
/// `^([a-zA-Z0-9.-]+|\d{1,3}(\.\d{1,3}){3}):\d+$`, and regex::Regex::is_match:
/// whether `s` matches depends on its characters alone.
#[verifier::external_body]
fn matches_host_pattern(s: &str) -> (r: bool)
    ensures
        r == host_pattern_match(s@),
{
    match regex::Regex::new(r"^([a-zA-Z0-9.-]+|\d{1,3}(\.\d{1,3}){3}):\d+$") {
        Ok(re) => re.is_match(s),
        Err(_) => false,
    }
}

/// Relies on std::str::from_utf8: it accepts exactly the well-formed UTF-8
/// byte strings, and decodes them.
#[verifier::external_body]
fn utf8_text(b: &[u8]) -> (r: Option<String>)
    ensures
        r is Some <==> valid_utf8(b@),
        r matches Some(s) ==> s@ == decode_utf8(b@),
{
    std::str::from_utf8(b).ok().map(|s| s.to_string())
}

/// Where a bounded scan stopped.
pub enum Scan {
    /// The pattern starts at this position.
    Found(usize),
    /// The bytes ran out first.
    NeedMore,
    /// The scan passed the bound first.
    TooLong,
}

/// Whether `p` occurs in `b` at position `i`.
pub(crate) fn occurs_at(b: &[u8], i: usize, p: &Vec<u8>) -> (r: bool)
    requires
        i + p@.len() <= b@.len(),
    ensures
        r == pattern_at(b@, i as int, p@),
{
    let n = b.len();
    let mut j: usize = 0;
    while j < p.len()
        invariant
            n == b@.len(),
            i + p@.len() <= b@.len(),
            j <= p@.len(),
            forall|t: int| 0 <= t < j ==> b@[i + t] == p@[t],
        decreases p@.len() - j,
    {
        if b[i + j] != p[j] {
            assert(b@.subrange(i as int, i + p@.len())[j as int] != p@[j as int]);
            return false;
        }
        j = j + 1;
    }
    assert(b@.subrange(i as int, i + p@.len()) =~= p@);
    true
}

/// Scans `b` from `start` for `p`, one position at a time, giving up past
/// `OVERFLOW_LIMIT`.
pub fn scan_for(b: &[u8], start: usize, p: &Vec<u8>) -> (r: Scan)
    requires
        p@.len() > 0,
        start <= b@.len(),
    ensures
        r matches Scan::Found(k) ==> first_match_at(b@, start as int, p@, k as int),
        r is Found <==> scan_finds(b@, start as int, p@),
        r is NeedMore <==> !scan_finds(b@, start as int, p@) && scan_runs_out(b@, start as int, p@),
        r is TooLong <==> !scan_finds(b@, start as int, p@) && !scan_runs_out(b@, start as int, p@),
{
    let mut k: usize = start;
    loop
        invariant
            p@.len() > 0,
            start <= k <= b@.len(),
            k <= OVERFLOW_LIMIT + 1 || k == start,
            k > start ==> k - 1 + p@.len() <= b@.len(),
            forall|j: int| start <= j < k ==> !pattern_at(b@, j, p@),
        decreases OVERFLOW_LIMIT + 1 - k,
    {
        if k > OVERFLOW_LIMIT {
            assert forall|m: int| !first_match_at(b@, start as int, p@, m) by {}
            return Scan::TooLong;
        }
        if b.len() - k < p.len() {
            assert forall|m: int| !first_match_at(b@, start as int, p@, m) by {}
            return Scan::NeedMore;
        }
        if occurs_at(b, k, p) {
            assert(first_match_at(b@, start as int, p@, k as int));
            return Scan::Found(k);
        }
        k = k + 1;
    }
}

/// The positions of the two spaces of a line with exactly three tokens.
pub fn find_spaces(l: &[u8]) -> (r: Option<(usize, usize)>)
    ensures
        r matches Some((p1, p2)) ==> spaces_at(l@, p1 as int, p2 as int),
        r is None <==> !three_tokens(l@),
{
    let mut first: Option<usize> = None;
    let mut second: Option<usize> = None;
    let mut i: usize = 0;
    while i < l.len()
        invariant
            i <= l@.len(),
            first is None ==> second is None,
            first is None ==> forall|j: int| 0 <= j < i ==> l@[j] != SPACE,
            first matches Some(a) ==> a < i && l@[a as int] == SPACE,
            first matches Some(a) ==> (second is None ==> forall|j: int|
                0 <= j < i && j != a ==> l@[j] != SPACE),
            second matches Some(c) ==> first matches Some(a) && a < c < i && l@[c as int] == SPACE
                && forall|j: int| 0 <= j < i && j != a && j != c ==> l@[j] != SPACE,
        decreases l@.len() - i,
    {
        if l[i] == SPACE {
            match (first, second) {
                (None, _) => {
                    first = Some(i);
                },
                (Some(_), None) => {
                    second = Some(i);
                },
                (Some(a), Some(c)) => {
                    assert forall|p1: int, p2: int| !spaces_at(l@, p1, p2) by {
                        if spaces_at(l@, p1, p2) {
                            assert(l@[a as int] == SPACE);
                            assert(l@[c as int] == SPACE);
                            assert(l@[i as int] == SPACE);
                        }
                    }
                    return None;
                },
            }
        }
        i = i + 1;
    }
    match (first, second) {
        (Some(a), Some(c)) => {
            assert(spaces_at(l@, a as int, c as int));
            Some((a, c))
        },
        _ => {
            assert forall|p1: int, p2: int| !spaces_at(l@, p1, p2) by {
                if spaces_at(l@, p1, p2) {
                    assert(l@[p1] == SPACE);
                    assert(l@[p2] == SPACE);
                }
            }
            None
        },
    }
}

/// The middle token of a UTF-8 line is UTF-8 itself: the spaces around it are
/// character boundaries.
proof fn lemma_middle_valid(l: Seq<u8>, p1: int, p2: int)
    requires
        valid_utf8(l),
        spaces_at(l, p1, p2),
    ensures
        valid_utf8(l.subrange(p1 + 1, p2)),
{
    is_char_boundary_iff_not_is_continuation_byte(l, p2);
    valid_utf8_split(l, p2);
    let pre = l.subrange(0, p2);
    assert(pre[p1] == SPACE);
    is_char_boundary_iff_not_is_continuation_byte(pre, p1);
    valid_utf8_split(pre, p1);
    let rest = pre.subrange(p1, p2 as int);
    assert(rest[0] == SPACE);
    assert(rest.len() != 0);
    assert(pop_first_scalar(rest) =~= l.subrange(p1 + 1, p2));
}

/// The space positions of a three-token line are unique.
proof fn lemma_spaces_unique(l: Seq<u8>, p1: int, p2: int)
    requires
        spaces_at(l, p1, p2),
    ensures
        three_tokens(l),
        middle_token(l) == l.subrange(p1 + 1, p2),
{
    assert(spaces_at(l, (p1, p2).0, (p1, p2).1));
    let p = choose|p: (int, int)| spaces_at(l, p.0, p.1);
    assert(l[p.0] == SPACE && l[p.1] == SPACE);
    assert(p.0 == p1 || p.0 == p2);
    assert(p.1 == p1 || p.1 == p2);
}

/// A request line that passed the structural checks.
pub struct RequestLine {
    /// Position of the line's `\r\n` in the buffer.
    pub end: usize,
    /// The line's middle token, the `host:port` of a valid request.
    pub host: String,
}

/// Parses the request line of `buffer`: at least `UNDERFLOW_LIMIT` bytes, the
/// `CONNECT` verb, a `\r\n` within the scan bound, UTF-8, three tokens.
/// `Ok(None)` asks for more bytes.
pub fn scan_request_line(buffer: &[u8]) -> (r: Result<Option<RequestLine>, ProxyError>)
    ensures
        match line_outcome(buffer@) {
            Ok(None) => r matches Ok(None),
            Ok(Some(c)) => r matches Ok(Some(l)) && l.end == c && l.host@ == host_text(buffer@),
            Err(e) => r matches Err(e2) && e2 == e,
        },
{
    if buffer.len() <= UNDERFLOW_LIMIT {
        return Ok(None);
    }
    let verb: Vec<u8> = vec![67u8, 79u8, 78u8, 78u8, 69u8, 67u8, 84u8];
    assert(verb@ =~= connect_verb());
    if !occurs_at(buffer, 0, &verb) {
        return Err(ProxyError::Malformed);
    }
    let crlf_bytes: Vec<u8> = vec![13u8, 10u8];
    assert(crlf_bytes@ =~= crlf());
    let c = match scan_for(buffer, 0, &crlf_bytes) {
        Scan::Found(c) => c,
        Scan::NeedMore => {
            return Ok(None);
        },
        Scan::TooLong => {
            return Err(ProxyError::Overflow);
        },
    };
    proof {
        let k = scan_pos(buffer@, 0, crlf());
        assert(first_match_at(buffer@, 0, crlf(), k));
        if k < c {
        } else if k > c {
        }
        assert(k == c);
    }
    let line = vstd::slice::slice_subrange(buffer, 0, c + 2);
    assert(line@ == request_line(buffer@));
    if utf8_text(line).is_none() {
        return Err(ProxyError::Malformed);
    }
    let (p1, p2) = match find_spaces(line) {
        Some(p) => p,
        None => {
            return Err(ProxyError::Malformed);
        },
    };
    proof {
        lemma_spaces_unique(line@, p1 as int, p2 as int);
        lemma_middle_valid(line@, p1 as int, p2 as int);
    }
    let token = vstd::slice::slice_subrange(line, p1 + 1, p2);
    match utf8_text(token) {
        Some(host) => Ok(Some(RequestLine { end: c, host })),
        None => Err(ProxyError::Malformed),
    }
}

/// Finishes parsing once the request line ending at `line.end` is known and
/// the host pattern has given `host_ok` on `line.host`: the host must match,
/// then the header section must end with `\r\n\r\n` within the scan bound.
pub fn finish_connect_request(buffer: &[u8], line: RequestLine, host_ok: bool) -> (r: Result<
    Option<String>,
    ProxyError,
>)
    requires
        line.end + 2 <= buffer@.len(),
    ensures
        reports(r, rest_outcome(buffer@, line.end as int, line.host@, host_ok)),
{
    if !host_ok {
        return Err(ProxyError::Malformed);
    }
    let crlf2_bytes: Vec<u8> = vec![13u8, 10u8, 13u8, 10u8];
    assert(crlf2_bytes@ =~= crlf2());
    match scan_for(buffer, line.end, &crlf2_bytes) {
        Scan::Found(_) => Ok(Some(line.host)),
        Scan::NeedMore => Ok(None),
        Scan::TooLong => Err(ProxyError::Overflow),
    }
}

/// Parses a CONNECT request held in `buffer`. Gives `Ok(None)` while more
/// bytes are needed, `Ok(Some(host))` with the `host:port` of a complete,
/// valid request, `Err(Malformed)` for a bad verb, line, host or encoding, and
/// `Err(Overflow)` when a scan passes `OVERFLOW_LIMIT`.
pub fn parse_connect_request_host(buffer: &[u8]) -> (r: Result<Option<String>, ProxyError>)
    ensures
        reports(r, connect_outcome(buffer@)),
{
    match scan_request_line(buffer) {
        Ok(Some(line)) => {
            let host_ok = matches_host_pattern(line.host.as_str());
            proof {
                assert(first_match_at(buffer@, 0, crlf(), scan_pos(buffer@, 0, crlf())));
            }
            finish_connect_request(buffer, line, host_ok)
        },
        Ok(None) => Ok(None),
        Err(e) => Err(e),
    }
}

/// A buffer of at most `UNDERFLOW_LIMIT` bytes always asks for more data and
/// is never an error.
pub proof fn lemma_short_buffer_needs_more(b: Seq<u8>)
    requires
        b.len() <= UNDERFLOW_LIMIT,
    ensures
        connect_outcome(b) == Ok::<Option<Seq<char>>, ProxyError>(None),
{
}

/// A buffer long enough to be parsed whose first seven bytes are not
/// `CONNECT` is malformed.
pub proof fn lemma_wrong_verb_malformed(b: Seq<u8>)
    requires
        b.len() > UNDERFLOW_LIMIT,
        b.subrange(0, 7) != connect_verb(),
    ensures
        connect_outcome(b) == Err::<Option<Seq<char>>, ProxyError>(ProxyError::Malformed),
{
}

/// A request line that does not split into three tokens, or whose middle
/// token does not match the host pattern, makes the request malformed.
/// The outcome depends on the bytes alone, so asking again gives the same.
pub proof fn lemma_bad_line_malformed(b: Seq<u8>)
    requires
        b.len() > UNDERFLOW_LIMIT,
        b.subrange(0, 7) == connect_verb(),
        scan_finds(b, 0, crlf()),
        !three_tokens(request_line(b)) || !host_pattern_match(host_text(b)),
    ensures
        connect_outcome(b) == Err::<Option<Seq<char>>, ProxyError>(ProxyError::Malformed),
{
}

/// Two parses of the same buffer give the same result.
pub proof fn lemma_parse_repeatable(
    b: Seq<u8>,
    r1: Result<Option<String>, ProxyError>,
    r2: Result<Option<String>, ProxyError>,
)
    requires
        reports(r1, connect_outcome(b)),
        reports(r2, connect_outcome(b)),
    ensures
        r1 is Err ==> r1 == r2,
        r1 matches Ok(None) ==> r2 matches Ok(None),
        r1 matches Ok(Some(h1)) ==> r2 matches Ok(Some(h2)) && h1@ == h2@,
{
}

/// A `CONNECT` request whose first `OVERFLOW_LIMIT + 1` positions hold no
/// `\r\n` overflows.
pub proof fn lemma_unterminated_line_overflows(b: Seq<u8>)
    requires
        b.len() > OVERFLOW_LIMIT + 1,
        b.subrange(0, 7) == connect_verb(),
        forall|j: int| 0 <= j <= OVERFLOW_LIMIT ==> !pattern_at(b, j, crlf()),
    ensures
        connect_outcome(b) == Err::<Option<Seq<char>>, ProxyError>(ProxyError::Overflow),
{
}

/// A match at `k` within the bound means the scan from `start` finds one.
proof fn lemma_first_match_exists(b: Seq<u8>, start: int, p: Seq<u8>, k: int)
    requires
        start <= k <= OVERFLOW_LIMIT,
        pattern_at(b, k, p),
    ensures
        scan_finds(b, start, p),
    decreases k - start,
{
    if exists|j: int| start <= j < k && pattern_at(b, j, p) {
        let j = choose|j: int| start <= j < k && pattern_at(b, j, p);
        lemma_first_match_exists(b, start, p, j);
    } else {
        assert(first_match_at(b, start, p, k));
    }
}

/// Bytes below 128 are valid UTF-8.
proof fn lemma_ascii_valid(s: Seq<u8>)
    requires
        forall|i: int| 0 <= i < s.len() ==> s[i] < 128,
    ensures
        valid_utf8(s),
    decreases s.len(),
{
    if s.len() > 0 {
        let tail = s.subrange(1, s.len() as int);
        lemma_ascii_valid(tail);
        assert(pop_first_scalar(s) =~= tail);
    }
}

/// For a request `CONNECT <host> <version>\r\n<headers>` whose host and
/// version hold no space and no carriage return, whose host matches the host
/// pattern, and which ends with `\r\n\r\n` within `OVERFLOW_LIMIT` bytes, the
/// parser gives exactly the host text.
pub proof fn lemma_valid_request_gives_host(host: Seq<u8>, version: Seq<u8>, headers: Seq<u8>)
    requires
        valid_utf8(host),
        valid_utf8(version),
        forall|i: int| 0 <= i < host.len() ==> host[i] != SPACE && host[i] != 13,
        forall|i: int| 0 <= i < version.len() ==> version[i] != SPACE && version[i] != 13,
        host_pattern_match(decode_utf8(host)),
        headers.len() >= 2,
        ({
            let b = connect_verb() + seq![SPACE] + host + seq![SPACE] + version + crlf() + headers;
            &&& UNDERFLOW_LIMIT < b.len() <= OVERFLOW_LIMIT
            &&& b.subrange(b.len() - 4, b.len() as int) == crlf2()
        }),
    ensures
        connect_outcome(connect_verb() + seq![SPACE] + host + seq![SPACE] + version + crlf() + headers)
            == Ok::<Option<Seq<char>>, ProxyError>(Some(decode_utf8(host))),
{
    let sp = seq![SPACE];
    let head = connect_verb() + sp;
    let line = head + host + sp + version + crlf();
    let b = line + headers;
    let n = b.len() as int;
    let c = line.len() - 2;
    let p1 = 7int;
    let p2 = 8 + host.len() as int;
    assert(b =~= connect_verb() + sp + host + sp + version + crlf() + headers);
    assert(b.subrange(0, 7) =~= connect_verb());
    // The first `\r\n` ends the request line.
    assert forall|j: int| 0 <= j < c implies !pattern_at(b, j, crlf()) by {
        if pattern_at(b, j, crlf()) {
            assert(b.subrange(j, j + 2)[0] == 13);
            assert(b[j] == 13);
            if j < 8 {
            } else if j < p2 {
                assert(b[j] == host[j - 8]);
            } else if j == p2 {
            } else {
                assert(b[j] == version[j - p2 - 1]);
            }
        }
    }
    assert(b.subrange(c, c + 2) =~= crlf());
    assert(first_match_at(b, 0, crlf(), c));
    let k = scan_pos(b, 0, crlf());
    assert(first_match_at(b, 0, crlf(), k));
    if k < c {
    } else if k > c {
    }
    assert(b.subrange(0, c + 2) =~= line);
    assert(request_line(b) == line);
    // The line is UTF-8.
    lemma_ascii_valid(connect_verb());
    lemma_ascii_valid(sp);
    lemma_ascii_valid(crlf());
    valid_utf8_concat(connect_verb(), sp);
    valid_utf8_concat(head, host);
    valid_utf8_concat(head + host, sp);
    valid_utf8_concat(head + host + sp, version);
    valid_utf8_concat(head + host + sp + version, crlf());
    // It has exactly two spaces, around the host.
    assert forall|i: int| 0 <= i < line.len() && i != p1 && i != p2 implies line[i] != SPACE by {
        if i < 7 {
        } else if i < p2 {
            assert(line[i] == host[i - 8]);
        } else if i < c {
            assert(line[i] == version[i - p2 - 1]);
        } else {
        }
    }
    assert(spaces_at(line, p1, p2));
    lemma_spaces_unique(line, p1, p2);
    assert(line.subrange(p1 + 1, p2) =~= host);
    assert(host_text(b) == decode_utf8(host));
    // The header terminator lies within the bound.
    assert(b.subrange(n - 4, n) == crlf2());
    lemma_first_match_exists(b, c, crlf2(), n - 4);
}

/// A host is only ever produced from a buffer whose request line ends with
/// `\r\n`, is well formed with a matching host, and is followed by a header
/// section ending with `\r\n\r\n`, all within the scan bound.
pub proof fn lemma_host_only_from_complete_request(b: Seq<u8>)
    requires
        connect_outcome(b) matches Ok(Some(_)),
    ensures
        b.len() > UNDERFLOW_LIMIT,
        b.subrange(0, 7) == connect_verb(),
        scan_finds(b, 0, crlf()),
        line_well_formed(request_line(b)),
        host_pattern_match(host_text(b)),
        scan_finds(b, scan_pos(b, 0, crlf()), crlf2()),
{
}

} // verus!
