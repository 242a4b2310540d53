use rinha::rinha_chan::boostrap;
use rinha::rinha_conf;
use rinha::rinha_http::{
    not_found, parse_summary_window, payments, payments_summary, PaymentsError,
};
use rinha::rinha_net::{get_http_request_line, router, split_http_request, Route};
use rinha::rinha_ambulance::UpstreamType;
use rinha::rinha_storage;

const NANOS_2024_01_01: i64 = 1_704_067_200_000_000_000;
const NANOS_2024_01_02: i64 = 1_704_153_600_000_000_000;
const NANOS_2024_01_03: i64 = 1_704_240_000_000_000_000;

#[test]
fn a_request_splits_at_the_blank_line() {
    let raw = b"POST /payments HTTP/1.1\r\nHost: x\r\n\r\n{\"a\":1}";
    let (head, body) = split_http_request(raw).unwrap();
    assert_eq!(head, b"POST /payments HTTP/1.1\r\nHost: x\r\n\r\n".as_slice());
    assert_eq!(body, b"{\"a\":1}".as_slice());
    assert!(split_http_request(b"no separator here").is_none());
}

#[test]
fn the_request_line_yields_method_and_target() {
    let head = b"GET /payments-summary?from=x HTTP/1.1\r\nHost: x\r\n\r\n";
    let (method, target) = get_http_request_line(head).unwrap();
    assert_eq!(method, b"GET".as_slice());
    assert_eq!(target, b"/payments-summary?from=x".as_slice());
    assert!(get_http_request_line(b"no line break").is_none());
    assert!(get_http_request_line(b"nospace\r\n").is_none());
}

#[test]
fn routing_follows_the_table() {
    assert_eq!(router(b"POST", b"/payments"), Route::Payments);
    assert_eq!(router(b"GET", b"/payments-summary"), Route::PaymentsSummary);
    assert_eq!(router(b"DELETE", b"/anything"), Route::NotFound);
    assert_eq!(router(b"GET", b"/payments"), Route::NotFound);
    assert_eq!(router(b"POST", b"/payments-summary"), Route::NotFound);
    assert_eq!(not_found(), 404);
}

#[test]
fn ingress_enqueues_a_well_formed_payment() {
    let mut q = boostrap();
    let body = br#"{"correlationId":"00000000-0000-0000-0000-000000000001","amount":10.0}"#;
    payments(&mut q, body, 42).unwrap();
    let p = q.recv(0).unwrap();
    assert_eq!(p.amount_cents, 1000);
    assert_eq!(p.requested_at, 42);
}

#[test]
fn ingress_refuses_a_malformed_body() {
    let mut q = boostrap();
    assert_eq!(
        payments(&mut q, b"not a payment", 0),
        Err(PaymentsError::MalformedBody)
    );
    for shard in 0..5 {
        assert!(q.recv(shard).is_none());
    }
}

#[test]
fn the_window_reads_from_and_to() {
    let q = b"from=2024-01-01T00:00:00Z&to=2024-01-02T00:00:00Z";
    assert_eq!(
        parse_summary_window(q, 7),
        (NANOS_2024_01_01, NANOS_2024_01_02)
    );
    // defaults: epoch and the clock
    assert_eq!(parse_summary_window(b"", 7), (0, 7));
    assert_eq!(
        parse_summary_window(b"to=2024-01-01T00:00:00Z", 7),
        (0, NANOS_2024_01_01)
    );
    // unknown and unreadable parameters change nothing
    assert_eq!(parse_summary_window(b"x=1&from=yesterday", 7), (0, 7));
    // a later valid parameter wins
    assert_eq!(
        parse_summary_window(
            b"from=2024-01-01T00:00:00Z&from=2024-01-02T00:00:00Z",
            7
        ),
        (NANOS_2024_01_02, 7)
    );
}

#[test]
fn the_summary_answers_over_the_window() {
    let mut store = rinha_storage::bootstrap();
    store.insert(UpstreamType::Default, NANOS_2024_01_01, 100);
    store.insert(UpstreamType::Default, NANOS_2024_01_02, 200);
    store.insert(UpstreamType::Default, NANOS_2024_01_03, 400);
    let query = b"from=2024-01-02T00:00:00Z&to=2024-01-03T00:00:00Z";
    let (counter, body) = payments_summary(&store, Some(query), 0);
    assert_eq!(counter.default.requests, 2);
    assert_eq!(counter.default.amount_cents, 600);
    assert_eq!(
        body,
        br#"{"default":{"totalRequests":2,"totalAmount":6.00},"fallback":{"totalRequests":0,"totalAmount":0.00}}"#
            .to_vec()
    );
    // no query at all: everything since the epoch up to now
    let (all, _) = payments_summary(&store, None, i64::MAX);
    assert_eq!(all.default.requests, 3);
}

#[test]
fn configuration_fills_gaps_with_defaults() {
    let c = rinha_conf::bootstrap(None, None, None, None, None, None);
    assert_eq!(c.host, b"0.0.0.0".to_vec());
    assert_eq!(c.port, b"9999".to_vec());
    assert_eq!(c.addr, b"0.0.0.0:9999".to_vec());
    assert_eq!(c.default_upstream_addr, b"127.0.0.1:8001".to_vec());
    assert_eq!(c.fallback_upstream_addr, b"127.0.0.1:8002".to_vec());
    let c = rinha_conf::bootstrap(
        Some(b"10.0.0.1".to_vec()),
        Some(b"80".to_vec()),
        Some(b"payment-processor-default".to_vec()),
        Some(b"8080".to_vec()),
        None,
        None,
    );
    assert_eq!(c.addr, b"10.0.0.1:80".to_vec());
    assert_eq!(
        c.default_upstream_addr,
        b"payment-processor-default:8080".to_vec()
    );
    assert_eq!(c.fallback_upstream_addr, b"127.0.0.1:8002".to_vec());
}
