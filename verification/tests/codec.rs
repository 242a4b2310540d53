use rinha::rinha_domain::Payment;
use rinha::rinha_json::{parse_health, parse_payment, serialize_payment, serialize_summary};
use rinha::rinha_domain::{Count, Health, TargetCounter};
use rinha::rinha_num::parse_amount;
use rinha::rinha_time::{format_rfc3339, parse_rfc3339};

const NANOS_2024_01_01: i64 = 1_704_067_200_000_000_000;
const NANOS_2024_01_02: i64 = 1_704_153_600_000_000_000;

fn payment(cid: &str, cents: u64, at: i64) -> Payment {
    Payment {
        correlation_id: cid.as_bytes().to_vec(),
        amount_cents: cents,
        requested_at: at,
    }
}

#[test]
fn format_rfc3339_renders_the_epoch() {
    let text = format_rfc3339(0);
    assert_eq!(text, b"1970-01-01T00:00:00+00:00".to_vec());
}

#[test]
fn parse_rfc3339_reads_a_zulu_timestamp() {
    assert_eq!(
        parse_rfc3339(b"2024-01-01T00:00:00Z"),
        Some(NANOS_2024_01_01)
    );
    assert_eq!(parse_rfc3339(b"not a timestamp"), None);
    assert_eq!(parse_rfc3339(b""), None);
}

#[test]
fn rfc3339_round_trips_through_the_formatter() {
    for nanos in [0i64, NANOS_2024_01_01, 1_700_000_000_123_456_789, -1] {
        let text = format_rfc3339(nanos);
        assert_eq!(parse_rfc3339(&text), Some(nanos));
    }
}

#[test]
fn payment_round_trips_through_json() {
    let p = payment("00000000-0000-0000-0000-000000000001", 1000, NANOS_2024_01_01);
    let body = serialize_payment(&p);
    let back = parse_payment(&body, 77).expect("serialized payment must parse");
    assert_eq!(back, p);
}

#[test]
fn payment_round_trips_with_odd_values() {
    let p = payment("A1B2C3D4-0000-4444-8888-0123456789ab", u64::MAX, -5);
    let body = serialize_payment(&p);
    let back = parse_payment(&body, 0).expect("serialized payment must parse");
    assert_eq!(back, p);
}

#[test]
fn parse_payment_fills_requested_at_with_now() {
    let body = br#"{"correlationId":"00000000-0000-0000-0000-000000000001","amount":10.0}"#;
    let p = parse_payment(body, 42).expect("documented body must parse");
    assert_eq!(p.amount_cents, 1000);
    assert_eq!(p.requested_at, 42);
    assert_eq!(
        p.correlation_id,
        b"00000000-0000-0000-0000-000000000001".to_vec()
    );
}

#[test]
fn parse_payment_honors_an_explicit_requested_at() {
    let body = br#"{"correlationId":"00000000-0000-0000-0000-000000000001","amount":19.9,"requestedAt":"2024-01-02T00:00:00Z"}"#;
    let p = parse_payment(body, 0).expect("documented body must parse");
    assert_eq!(p.amount_cents, 1990);
    assert_eq!(p.requested_at, NANOS_2024_01_02);
}

#[test]
fn parse_payment_rejects_malformed_bodies() {
    let bad: &[&[u8]] = &[
        b"",
        b"{}",
        b"not json at all",
        br#"{"correlationId":"not-a-uuid","amount":10.0}"#,
        br#"{"correlationId":"00000000-0000-0000-0000-000000000001","amount":}"#,
        br#"{"correlationId":"00000000-0000-0000-0000-000000000001","amount":10.123}"#,
        br#"{"correlationId":"00000000-0000-0000-0000-000000000001","amount":10.0,"requestedAt":"yesterday"}"#,
        br#"{"correlationId":"00000000-0000-0000-0000-000000000001","amount":10.0}trailing"#,
    ];
    for body in bad {
        assert!(parse_payment(body, 0).is_none(), "accepted: {:?}", body);
    }
}

#[test]
fn parse_amount_reads_the_documented_shapes() {
    assert_eq!(parse_amount(b"10,", 0), (Some(1000), 2));
    assert_eq!(parse_amount(b"10.5,", 0), (Some(1050), 4));
    assert_eq!(parse_amount(b"10.55,", 0), (Some(1055), 5));
    assert_eq!(parse_amount(b"0.01,", 0), (Some(1), 4));
    // three fractional digits, a bare dot, and no digits at all are refused
    assert_eq!(parse_amount(b"10.555,", 0).0, None);
    assert_eq!(parse_amount(b".5,", 0).0, None);
    assert_eq!(parse_amount(b",", 0).0, None);
    // too large for a u64 of cents
    assert_eq!(parse_amount(b"999999999999999999999,", 0).0, None);
}

#[test]
fn parse_health_reads_both_answers() {
    assert_eq!(
        parse_health(br#"{"failing":false,"minResponseTime":0}"#),
        Some(Health { failing: false })
    );
    assert_eq!(
        parse_health(br#"{"failing":true}"#),
        Some(Health { failing: true })
    );
    assert_eq!(parse_health(br#"{"minResponseTime":0,"failing":true}"#), None);
    assert_eq!(parse_health(b"oops"), None);
    assert_eq!(parse_health(b""), None);
}

#[test]
fn serialize_summary_renders_the_documented_shape() {
    let t = TargetCounter {
        default: Count {
            requests: 1,
            amount_cents: 1000,
        },
        fallback: Count {
            requests: 0,
            amount_cents: 0,
        },
    };
    let body = serialize_summary(&t);
    assert_eq!(
        body,
        br#"{"default":{"totalRequests":1,"totalAmount":10.00},"fallback":{"totalRequests":0,"totalAmount":0.00}}"#
            .to_vec()
    );
}
