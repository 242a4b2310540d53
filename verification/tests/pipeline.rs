use rinha::rinha_ambulance::{
    apply_check, check, select, set_health, try_check, HealthView, TryCheckError, UpstreamType,
};
use rinha::rinha_balancer::Balancer;
use rinha::rinha_ambulance::Upstream;
use rinha::rinha_chan::{boostrap, PaymentQueue};
use rinha::rinha_domain::{Health, Payment};
use rinha::rinha_storage;
use rinha::rinha_worker::{
    backoff, classify_response, dispatch_step, start_dispatch, try_process_payment,
    DispatchAction, DispatchEvent, PaymentError, PostOutcome,
};

fn payment(tag: u8, at: i64) -> Payment {
    let mut cid = b"00000000-0000-0000-0000-0000000000ff".to_vec();
    cid[34] = b'0' + (tag / 10);
    cid[35] = b'0' + (tag % 10);
    Payment {
        correlation_id: cid,
        amount_cents: 1000,
        requested_at: at,
    }
}

#[test]
fn selector_prefers_default_strictly() {
    let mut h = HealthView::new();
    assert_eq!(select(&h), None);
    h.default_healthy = true;
    h.fallback_healthy = true;
    assert_eq!(select(&h), Some(UpstreamType::Default));
    h.default_healthy = false;
    assert_eq!(select(&h), Some(UpstreamType::Fallback));
    h.fallback_healthy = false;
    assert_eq!(select(&h), None);
}

#[test]
fn probe_application_negates_the_failing_bits() {
    let mut h = HealthView::new();
    apply_check(&mut h, Health { failing: false }, Health { failing: true });
    assert!(h.default_healthy);
    assert!(!h.fallback_healthy);
}

#[test]
fn a_probe_cycle_reads_both_bodies_or_changes_nothing() {
    let mut h = HealthView::new();
    assert!(check(&mut h, br#"{"failing":false}"#, br#"{"failing":true}"#).is_ok());
    assert!(h.default_healthy);
    assert!(!h.fallback_healthy);
    // one malformed body: the whole view stands
    assert!(check(&mut h, b"garbage", br#"{"failing":false}"#).is_err());
    assert!(h.default_healthy);
    assert!(!h.fallback_healthy);
    assert_eq!(try_check(b"garbage"), Err(TryCheckError::MalformedBody));
}

#[test]
fn demotion_clears_one_slot_only() {
    let mut h = HealthView::new();
    apply_check(&mut h, Health { failing: false }, Health { failing: false });
    set_health(&mut h, UpstreamType::Default, false);
    assert!(!h.default_healthy);
    assert!(h.fallback_healthy);
}

#[test]
fn backoff_doubles_up_to_the_cap() {
    assert_eq!(backoff(10, 0, 5000), 10);
    assert_eq!(backoff(10, 1, 5000), 20);
    assert_eq!(backoff(10, 8, 5000), 2560);
    assert_eq!(backoff(10, 9, 5000), 5000);
    assert_eq!(backoff(50, 0, 10000), 50);
    assert_eq!(backoff(50, 7, 10000), 6400);
    assert_eq!(backoff(50, 8, 10000), 10000);
    assert_eq!(backoff(50, 200, 10000), 10000);
    let mut last = 0;
    for attempt in 0..64 {
        let d = backoff(10, attempt, 5000);
        assert!(d >= last && d <= 5000);
        last = d;
    }
}

#[test]
fn statuses_classify_as_documented() {
    assert_eq!(classify_response(Some(200)), PostOutcome::Accepted);
    assert_eq!(classify_response(Some(299)), PostOutcome::Accepted);
    assert_eq!(classify_response(Some(500)), PostOutcome::ServerFailed);
    assert_eq!(classify_response(Some(599)), PostOutcome::ServerFailed);
    assert_eq!(classify_response(Some(400)), PostOutcome::ClientRejected);
    assert_eq!(classify_response(Some(302)), PostOutcome::ClientRejected);
    assert_eq!(classify_response(None), PostOutcome::TransportFailed);
}

#[test]
fn queue_hands_payments_out_in_send_order() {
    let mut q = PaymentQueue::new();
    q.send(payment(1, 1)).unwrap();
    q.send(payment(2, 2)).unwrap();
    q.send(payment(3, 3)).unwrap();
    assert_eq!(q.recv().unwrap(), payment(1, 1));
    assert_eq!(q.recv().unwrap(), payment(2, 2));
    assert_eq!(q.recv().unwrap(), payment(3, 3));
    assert!(q.recv().is_none());
}

#[test]
fn a_full_shard_hands_the_payment_back() {
    let mut q = PaymentQueue::new();
    for i in 0..rinha::rinha_chan::CHANNEL_BUFFER {
        q.send(payment(0, i as i64)).unwrap();
    }
    let bounced = q.send(payment(9, -1)).unwrap_err();
    assert_eq!(bounced, payment(9, -1));
    assert_eq!(q.recv().unwrap(), payment(0, 0));
}

#[test]
fn the_sharded_queue_spreads_producers_round_robin() {
    let mut q = boostrap();
    for i in 0..10 {
        q.send(payment(i, i as i64)).unwrap();
    }
    // each of the five shards took every fifth payment, in order
    for shard in 0..5usize {
        assert_eq!(q.recv(shard).unwrap(), payment(shard as u8, shard as i64));
        assert_eq!(
            q.recv(shard).unwrap(),
            payment(shard as u8 + 5, shard as i64 + 5)
        );
        assert!(q.recv(shard).is_none());
    }
}

#[test]
fn happy_path_lands_on_default() {
    // both upstreams healthy, the default answers 200
    let mut h = HealthView::new();
    apply_check(&mut h, Health { failing: false }, Health { failing: false });
    let mut store = rinha_storage::bootstrap();
    let p = payment(1, 100);
    let mut st = start_dispatch();
    let picked = select(&h).unwrap();
    assert_eq!(picked, UpstreamType::Default);
    let action = dispatch_step(&mut st, DispatchEvent::UpstreamAnswer(picked, Some(200)));
    assert_eq!(action, DispatchAction::Persist(UpstreamType::Default));
    try_process_payment(&mut store, &p, picked, Some(200)).unwrap();
    let t = store.summary(0, i64::MAX);
    assert_eq!(t.default.requests, 1);
    assert_eq!(t.default.amount_cents, 1000);
    assert_eq!(t.fallback.requests, 0);
}

#[test]
fn a_5xx_fails_over_to_the_fallback() {
    let mut h = HealthView::new();
    apply_check(&mut h, Health { failing: false }, Health { failing: false });
    let mut store = rinha_storage::bootstrap();
    let p = payment(2, 200);
    let mut st = start_dispatch();
    // first try: default answers 500 -> demote and retry
    let picked = select(&h).unwrap();
    assert_eq!(picked, UpstreamType::Default);
    assert_eq!(
        try_process_payment(&mut store, &p, picked, Some(500)),
        Err(PaymentError::ServerFailed)
    );
    let action = dispatch_step(&mut st, DispatchEvent::UpstreamAnswer(picked, Some(500)));
    match action {
        DispatchAction::RetryAfterDemote(kind, delay) => {
            assert_eq!(kind, UpstreamType::Default);
            assert_eq!(delay, 10);
            set_health(&mut h, kind, false);
        }
        other => panic!("unexpected action {:?}", other),
    }
    // second try lands on the fallback
    let picked = select(&h).unwrap();
    assert_eq!(picked, UpstreamType::Fallback);
    try_process_payment(&mut store, &p, picked, Some(201)).unwrap();
    let action = dispatch_step(&mut st, DispatchEvent::UpstreamAnswer(picked, Some(201)));
    assert_eq!(action, DispatchAction::Persist(UpstreamType::Fallback));
    let t = store.summary(0, i64::MAX);
    assert_eq!(t.default.requests, 0);
    assert_eq!(t.fallback.requests, 1);
}

#[test]
fn no_healthy_upstream_waits_then_recovers() {
    let mut h = HealthView::new();
    apply_check(&mut h, Health { failing: true }, Health { failing: true });
    let mut store = rinha_storage::bootstrap();
    let p = payment(3, 300);
    let mut st = start_dispatch();
    // nothing to pick: the worker sleeps with a growing backoff
    assert_eq!(select(&h), None);
    let a1 = dispatch_step(&mut st, DispatchEvent::NoHealthyUpstream);
    let a2 = dispatch_step(&mut st, DispatchEvent::NoHealthyUpstream);
    assert_eq!(a1, DispatchAction::SleepForUpstream(50));
    assert_eq!(a2, DispatchAction::SleepForUpstream(100));
    assert_eq!(store.summary(0, i64::MAX).default.requests, 0);
    // the next probe cycle restores the default; the payment lands there
    apply_check(&mut h, Health { failing: false }, Health { failing: true });
    let picked = select(&h).unwrap();
    assert_eq!(picked, UpstreamType::Default);
    try_process_payment(&mut store, &p, picked, Some(200)).unwrap();
    let t = store.summary(0, i64::MAX);
    assert_eq!(t.default.requests, 1);
}

#[test]
fn a_4xx_drops_the_payment_for_good() {
    let mut store = rinha_storage::bootstrap();
    let p = payment(4, 400);
    let mut st = start_dispatch();
    assert!(try_process_payment(&mut store, &p, UpstreamType::Default, Some(422)).is_ok());
    let action = dispatch_step(
        &mut st,
        DispatchEvent::UpstreamAnswer(UpstreamType::Default, Some(422)),
    );
    assert_eq!(action, DispatchAction::DropPayment);
    assert_eq!(store.summary(0, i64::MAX).default.requests, 0);
}

#[test]
fn a_transport_failure_counts_as_server_class() {
    let mut store = rinha_storage::bootstrap();
    let p = payment(5, 500);
    assert_eq!(
        try_process_payment(&mut store, &p, UpstreamType::Fallback, None),
        Err(PaymentError::Transport)
    );
    let mut st = start_dispatch();
    let action = dispatch_step(
        &mut st,
        DispatchEvent::UpstreamAnswer(UpstreamType::Fallback, None),
    );
    assert_eq!(
        action,
        DispatchAction::RetryAfterDemote(UpstreamType::Fallback, 10)
    );
}

#[test]
fn the_balancer_carries_the_same_rule() {
    let d = Upstream::new(UpstreamType::Default, b"127.0.0.1:8001".to_vec());
    let f = Upstream::new(UpstreamType::Fallback, b"127.0.0.1:8002".to_vec());
    let mut b = Balancer::new(d, f);
    assert!(b.select().is_none());
    assert_eq!(b.set_health(UpstreamType::Fallback, true), false);
    assert_eq!(b.select().unwrap().kind, UpstreamType::Fallback);
    b.set_health(UpstreamType::Default, true);
    assert_eq!(b.select().unwrap().kind, UpstreamType::Default);
    let d_ref = b.get_backends().0;
    assert!(b.is_healthy(d_ref));
}
