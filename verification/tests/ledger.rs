use rinha::rinha_ambulance::UpstreamType;
use rinha::rinha_storage::{bootstrap, KindStore};

const NANOS_2024_01_01: i64 = 1_704_067_200_000_000_000;
const NANOS_2024_01_02: i64 = 1_704_153_600_000_000_000;
const NANOS_2024_01_03: i64 = 1_704_240_000_000_000_000;

#[test]
fn a_fresh_store_summarizes_to_zero() {
    let store = bootstrap();
    let t = store.summary(i64::MIN, i64::MAX);
    assert_eq!(t.default.requests, 0);
    assert_eq!(t.default.amount_cents, 0);
    assert_eq!(t.fallback.requests, 0);
    assert_eq!(t.fallback.amount_cents, 0);
}

#[test]
fn an_insert_lands_under_exactly_one_kind() {
    let mut store = bootstrap();
    store.insert(UpstreamType::Default, NANOS_2024_01_01, 1000);
    let t = store.summary(i64::MIN, i64::MAX);
    assert_eq!(t.default.requests, 1);
    assert_eq!(t.default.amount_cents, 1000);
    assert_eq!(t.fallback.requests, 0);
    assert_eq!(t.fallback.amount_cents, 0);
}

#[test]
fn inserting_the_same_entry_twice_changes_nothing_more() {
    let mut once = bootstrap();
    once.insert(UpstreamType::Default, NANOS_2024_01_01, 1000);
    let mut twice = bootstrap();
    twice.insert(UpstreamType::Default, NANOS_2024_01_01, 1000);
    twice.insert(UpstreamType::Default, NANOS_2024_01_01, 1000);
    assert_eq!(
        once.summary(i64::MIN, i64::MAX),
        twice.summary(i64::MIN, i64::MAX)
    );
    assert_eq!(once.summary(i64::MIN, i64::MAX).default.requests, 1);
}

#[test]
fn an_insert_under_an_existing_key_replaces_the_amount() {
    let mut store = bootstrap();
    store.insert(UpstreamType::Fallback, NANOS_2024_01_01, 1000);
    store.insert(UpstreamType::Fallback, NANOS_2024_01_01, 250);
    let t = store.summary(i64::MIN, i64::MAX);
    assert_eq!(t.fallback.requests, 1);
    assert_eq!(t.fallback.amount_cents, 250);
}

#[test]
fn a_range_scan_sees_exactly_the_window() {
    let mut store = bootstrap();
    store.insert(UpstreamType::Default, NANOS_2024_01_01, 100);
    store.insert(UpstreamType::Default, NANOS_2024_01_02, 200);
    store.insert(UpstreamType::Default, NANOS_2024_01_03, 400);
    let t = store.summary(NANOS_2024_01_02, NANOS_2024_01_03);
    assert_eq!(t.default.requests, 2);
    assert_eq!(t.default.amount_cents, 600);
}

#[test]
fn a_point_range_sees_exactly_its_timestamp() {
    let mut store = bootstrap();
    store.insert(UpstreamType::Default, NANOS_2024_01_01, 100);
    store.insert(UpstreamType::Default, NANOS_2024_01_02, 200);
    let t = store.summary(NANOS_2024_01_02, NANOS_2024_01_02);
    assert_eq!(t.default.requests, 1);
    assert_eq!(t.default.amount_cents, 200);
}

#[test]
fn a_covering_range_sees_the_full_history() {
    let mut store = bootstrap();
    for day in 0..31i64 {
        store.insert(
            UpstreamType::Default,
            NANOS_2024_01_01 + day * 86_400_000_000_000,
            100,
        );
    }
    let t = store.summary(0, NANOS_2024_01_01 + 31 * 86_400_000_000_000);
    assert_eq!(t.default.requests, 31);
    assert_eq!(t.default.amount_cents, 3100);
}

#[test]
fn an_inverted_range_sees_nothing() {
    let mut store = bootstrap();
    store.insert(UpstreamType::Default, NANOS_2024_01_01, 100);
    store.insert(UpstreamType::Fallback, NANOS_2024_01_01, 100);
    let t = store.summary(NANOS_2024_01_02, NANOS_2024_01_01);
    assert_eq!(t.default.requests, 0);
    assert_eq!(t.default.amount_cents, 0);
    assert_eq!(t.fallback.requests, 0);
    assert_eq!(t.fallback.amount_cents, 0);
}

#[test]
fn counts_grow_monotonically_under_inserts() {
    let mut store = bootstrap();
    let mut last: u64 = 0;
    for i in 0..100i64 {
        // unordered keys, a few repeated
        let key = (i * 37) % 50;
        store.insert(UpstreamType::Default, key, 1);
        let t = store.summary(i64::MIN, i64::MAX);
        assert!(t.default.requests >= last);
        last = t.default.requests;
    }
    assert_eq!(last, 50);
}

#[test]
fn out_of_order_inserts_order_the_ledger() {
    let mut s = KindStore::new();
    s.insert(30, 3);
    s.insert(10, 1);
    s.insert(20, 2);
    let all = s.range_stats(i64::MIN, i64::MAX);
    assert_eq!(all.requests, 3);
    assert_eq!(all.amount_cents, 6);
    let head = s.range_stats(i64::MIN, 15);
    assert_eq!(head.requests, 1);
    assert_eq!(head.amount_cents, 1);
}
