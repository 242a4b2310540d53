//! The wire edge's decisions: carving a raw HTTP/1.1 request into head and
//! body, reading its request line, routing, and the socket tuning values.
//!
//! Accepting connections, reading bytes and writing answers is the
//! application's work; what the bytes mean is decided here.

use crate::rinha_domain::bytes_eq;
use crate::rinha_http::{NotFoundError, PaymentsError, PaymentsSummaryError};
use crate::rinha_num::{scan_until, scan_until_spec};
use vstd::prelude::*;

verus! {

/// Whether the blank line separating head from body stands at `p`.
pub open spec fn is_body_sep_at(s: Seq<u8>, p: int) -> bool {
    &&& p + 4 <= s.len()
    &&& s[p] == 13
    &&& s[p + 1] == 10
    &&& s[p + 2] == 13
    &&& s[p + 3] == 10
}

/// The first position at or after `i` where the head/body separator stands,
/// or the length of `s` where there is none.
pub open spec fn sep_scan(s: Seq<u8>, i: int) -> int
    decreases s.len() - i,
{
    if i < 0 || i + 4 > s.len() {
        s.len() as int
    } else if is_body_sep_at(s, i) {
        i
    } else {
        sep_scan(s, i + 1)
    }
}

proof fn lemma_sep_scan(s: Seq<u8>, from: int, j: int)
    requires
        0 <= from <= j <= s.len(),
        forall|k: int| from <= k < j ==> !is_body_sep_at(s, k),
        j == s.len() || is_body_sep_at(s, j),
    ensures
        sep_scan(s, from) == j,
    decreases j - from,
{
    if from < j {
        assert(!is_body_sep_at(s, from));
        lemma_sep_scan(s, from + 1, j);
    }
}

/// Splits a raw request at the end of the first blank line: the head keeps
/// the separator, the body is everything after it.  `None` where no blank
/// line stands in the bytes.
pub fn split_http_request(request: &[u8]) -> (r: Option<(&[u8], &[u8])>)
    ensures
        (match r {
            Some(parts) => {
                let p = sep_scan(request@, 0);
                &&& p < request@.len()
                &&& is_body_sep_at(request@, p)
                &&& parts.0@ == request@.subrange(0, p + 4)
                &&& parts.1@ == request@.subrange(p + 4, request@.len() as int)
            },
            None => sep_scan(request@, 0) == request@.len(),
        }),
{
    let mut i: usize = 0;
    while request.len() >= 4 && i <= request.len() - 4
        invariant
            i <= request@.len(),
            forall|k: int| 0 <= k < i ==> !is_body_sep_at(request@, k),
        decreases request@.len() - i,
    {
        if request[i] == 13 && request[i + 1] == 10 && request[i + 2] == 13 && request[i + 3]
            == 10 {
            proof {
                lemma_sep_scan(request@, 0, i as int);
            }
            let head = &request[0..i + 4];
            let body = &request[i + 4..request.len()];
            return Some((head, body));
        }
        i = i + 1;
    }
    proof {
        assert forall|k: int| 0 <= k < request@.len() implies !is_body_sep_at(request@, k) by {
            if k < i {
            } else {
                assert(k + 4 > request@.len());
            }
        }
        lemma_sep_scan(request@, 0, request@.len() as int);
    }
    None
}

/// The first position at or after `i` where `\r\n` stands, or the length.
pub open spec fn crlf_scan(s: Seq<u8>, i: int) -> int
    decreases s.len() - i,
{
    if i < 0 || i + 2 > s.len() {
        s.len() as int
    } else if s[i] == 13 && s[i + 1] == 10 {
        i
    } else {
        crlf_scan(s, i + 1)
    }
}

proof fn lemma_crlf_scan(s: Seq<u8>, from: int, j: int)
    requires
        0 <= from <= j <= s.len(),
        forall|k: int| from <= k < j ==> !((#[trigger] s[k]) == 13 && k + 1 < s.len() && s[k + 1] == 10),
        j == s.len() || (j + 1 < s.len() && s[j] == 13 && s[j + 1] == 10),
    ensures
        crlf_scan(s, from) == j,
    decreases j - from,
{
    if from < j {
        lemma_crlf_scan(s, from + 1, j);
    }
}

/// What the request line `[0, crlf)` of a head yields: the method up to the
/// first space and the target up to the next space or the line's end;
/// nothing where the head has no line break or the line has no space.
pub open spec fn request_line_spec(header: Seq<u8>) -> Option<(Seq<u8>, Seq<u8>)> {
    let e = crlf_scan(header, 0);
    if e == header.len() {
        None
    } else {
        let line = header.subrange(0, e);
        let m = scan_until_spec(line, 0, 32);
        if m == line.len() {
            None
        } else {
            let p = scan_until_spec(line, m + 1, 32);
            Some((line.subrange(0, m), line.subrange(m + 1, p)))
        }
    }
}

/// Reads the method and the request target off a request head.
pub fn get_http_request_line(header: &[u8]) -> (r: Option<(&[u8], &[u8])>)
    ensures
        (match r {
            Some(parts) => {
                &&& request_line_spec(header@) is Some
                &&& parts.0@ == request_line_spec(header@)->Some_0.0
                &&& parts.1@ == request_line_spec(header@)->Some_0.1
            },
            None => request_line_spec(header@) is None,
        }),
{
    let mut e: usize = 0;
    while header.len() >= 2 && e <= header.len() - 2
        invariant
            e <= header@.len(),
            forall|k: int|
                0 <= k < e ==> !((#[trigger] header@[k]) == 13 && k + 1 < header@.len()
                    && header@[k + 1] == 10),
        decreases header@.len() - e,
    {
        if header[e] == 13 && header[e + 1] == 10 {
            proof {
                lemma_crlf_scan(header@, 0, e as int);
            }
            let line = &header[0..e];
            let m = scan_until(line, 0, 32);
            if m == line.len() {
                return None;
            }
            let p = scan_until(line, m + 1, 32);
            let method = &line[0..m];
            let target = &line[m + 1..p];
            return Some((method, target));
        }
        e = e + 1;
    }
    proof {
        assert forall|k: int|
            0 <= k < header@.len() implies !((#[trigger] header@[k]) == 13 && k + 1
            < header@.len() && header@[k + 1] == 10) by {
            if k < e {
            } else {
                assert(k + 2 > header@.len());
            }
        }
        lemma_crlf_scan(header@, 0, header@.len() as int);
    }
    None
}

/// `POST`
pub open spec fn lit_post() -> Seq<u8> {
    seq!['P' as u8, 'O' as u8, 'S' as u8, 'T' as u8]
}

/// `GET`
pub open spec fn lit_get() -> Seq<u8> {
    seq!['G' as u8, 'E' as u8, 'T' as u8]
}

/// `/payments`
pub open spec fn lit_path_payments() -> Seq<u8> {
    seq![
        '/' as u8,
        'p' as u8,
        'a' as u8,
        'y' as u8,
        'm' as u8,
        'e' as u8,
        'n' as u8,
        't' as u8,
        's' as u8,
    ]
}

/// `/payments-summary`
pub open spec fn lit_path_summary() -> Seq<u8> {
    seq![
        '/' as u8,
        'p' as u8,
        'a' as u8,
        'y' as u8,
        'm' as u8,
        'e' as u8,
        'n' as u8,
        't' as u8,
        's' as u8,
        '-' as u8,
        's' as u8,
        'u' as u8,
        'm' as u8,
        'm' as u8,
        'a' as u8,
        'r' as u8,
        'y' as u8,
    ]
}

/// Where a request goes.
#[derive(Clone, Copy, PartialEq, Eq, Structural, Debug)]
pub enum Route {
    /// `POST /payments`
    Payments,
    /// `GET /payments-summary`
    PaymentsSummary,
    /// Everything else: 404, empty body.
    NotFound,
}

/// The routing table over `(method, path)`.
pub open spec fn route_spec(method: Seq<u8>, path: Seq<u8>) -> Route {
    if method == lit_post() && path == lit_path_payments() {
        Route::Payments
    } else if method == lit_get() && path == lit_path_summary() {
        Route::PaymentsSummary
    } else {
        Route::NotFound
    }
}

/// Dispatches a request by method and path.
pub fn router(method: &[u8], path: &[u8]) -> (r: Route)
    ensures
        r == route_spec(method@, path@),
{
    let post = lit_post_vec();
    let get = lit_get_vec();
    let payments_path = lit_path_payments_vec();
    let summary_path = lit_path_summary_vec();
    if bytes_eq(method, post.as_slice()) && bytes_eq(path, payments_path.as_slice()) {
        Route::Payments
    } else if bytes_eq(method, get.as_slice()) && bytes_eq(path, summary_path.as_slice()) {
        Route::PaymentsSummary
    } else {
        Route::NotFound
    }
}

fn lit_post_vec() -> (r: Vec<u8>)
    ensures
        r@ == lit_post(),
{
    let mut v: Vec<u8> = Vec::new();
    v.push('P' as u8);
    v.push('O' as u8);
    v.push('S' as u8);
    v.push('T' as u8);
    proof {
        assert(v@ =~= lit_post());
    }
    v
}

fn lit_get_vec() -> (r: Vec<u8>)
    ensures
        r@ == lit_get(),
{
    let mut v: Vec<u8> = Vec::new();
    v.push('G' as u8);
    v.push('E' as u8);
    v.push('T' as u8);
    proof {
        assert(v@ =~= lit_get());
    }
    v
}

fn lit_path_payments_vec() -> (r: Vec<u8>)
    ensures
        r@ == lit_path_payments(),
{
    let mut v: Vec<u8> = Vec::new();
    v.push('/' as u8);
    v.push('p' as u8);
    v.push('a' as u8);
    v.push('y' as u8);
    v.push('m' as u8);
    v.push('e' as u8);
    v.push('n' as u8);
    v.push('t' as u8);
    v.push('s' as u8);
    proof {
        assert(v@ =~= lit_path_payments());
    }
    v
}

fn lit_path_summary_vec() -> (r: Vec<u8>)
    ensures
        r@ == lit_path_summary(),
{
    let mut v = lit_path_payments_vec();
    v.push('-' as u8);
    v.push('s' as u8);
    v.push('u' as u8);
    v.push('m' as u8);
    v.push('m' as u8);
    v.push('a' as u8);
    v.push('r' as u8);
    v.push('y' as u8);
    proof {
        assert(v@ =~= lit_path_summary());
    }
    v
}

/// Why the listening address could not be resolved.
#[derive(Clone, Copy, PartialEq, Eq, Structural, Debug)]
pub enum ResolveSocketAddrError {
    /// The lookup itself failed.
    IO,
    /// The lookup answered with no address at all.
    Unmatched,
}

/// Why the listening socket could not be made.
#[derive(Clone, Copy, PartialEq, Eq, Structural, Debug)]
pub enum CreateTCPSocketError {
    IO,
}

/// Why the accept loop stopped.
#[derive(Clone, Copy, PartialEq, Eq, Structural, Debug)]
pub enum AcceptLoopError {
    IO,
}

/// Why a routed request failed.
#[derive(Clone, Copy, PartialEq, Eq, Structural, Debug)]
pub enum RouterError {
    Payments(PaymentsError),
    PaymentsSummary(PaymentsSummaryError),
    NotFound(NotFoundError),
}

/// The tuning the listening socket is given.  The values are the contract
/// between this module and the code that owns the socket.
#[derive(Clone, Copy, PartialEq, Eq, Structural, Debug)]
pub struct SocketConfig {
    pub backlog: u32,
    pub keepalive_time_secs: u64,
    pub keepalive_interval_secs: u64,
    pub user_timeout_secs: u64,
    pub send_buffer_bytes: u32,
    pub recv_buffer_bytes: u32,
    pub ttl: u32,
    pub tos: u32,
    pub nodelay: bool,
    pub quickack: bool,
    pub reuse_address: bool,
    pub reuse_port: bool,
    pub linger_ms: u64,
}

/// The socket tuning the gateway runs with.
pub fn bootstrap() -> (r: SocketConfig)
    ensures
        r == (SocketConfig {
            backlog: 8192,
            keepalive_time_secs: 30,
            keepalive_interval_secs: 10,
            user_timeout_secs: 3,
            send_buffer_bytes: 32768,
            recv_buffer_bytes: 32768,
            ttl: 64,
            tos: 16,
            nodelay: true,
            quickack: true,
            reuse_address: true,
            reuse_port: true,
            linger_ms: 0,
        }),
{
    SocketConfig {
        backlog: 8192,
        keepalive_time_secs: 30,
        keepalive_interval_secs: 10,
        user_timeout_secs: 3,
        send_buffer_bytes: 32768,
        recv_buffer_bytes: 32768,
        ttl: 64,
        tos: 16,
        nodelay: true,
        quickack: true,
        reuse_address: true,
        reuse_port: true,
        linger_ms: 0,
    }
}

} // verus!
