//! The two HTTP handlers' decisions: ingress of a payment and the summary.
//!
//! The surrounding application owns the sockets; it hands each handler the
//! request's plain parts — body bytes, query bytes, the clock — and puts the
//! status and body this module decides on back onto the wire.  A body the
//! payment reader rejects is answered as a client error (400); the gateway
//! never answers with a server error, whatever its upstreams do.

use crate::rinha_chan::ShardedQueue;
use crate::rinha_domain::TargetCounter;
use crate::rinha_json::{
    has_lit_at, json_summary, parse_payment, parse_payment_spec, serialize_summary,
};
use crate::rinha_num::{scan_until, scan_until_spec};
use crate::rinha_storage::{range_count, range_total, Store};
use crate::rinha_time::{parse_rfc3339, rfc3339_instant_of};
use vstd::prelude::*;

verus! {

/// Why `POST /payments` did not enqueue.
#[derive(Clone, Copy, PartialEq, Eq, Structural, Debug)]
pub enum PaymentsError {
    /// The body is not a payment object; answered 400.
    MalformedBody,
    /// The shard under the cursor is full; the caller waits and retries.
    QueueFull,
}

/// Ingress of `POST /payments`: reads the body and hands the payment to the
/// queue.  A well-formed body lands, in arrival order, on the shard under
/// the round-robin cursor; a malformed one changes nothing and is refused.
pub fn payments(q: &mut ShardedQueue, body: &[u8], now: i64) -> (r: Result<(), PaymentsError>)
    requires
        old(q).wf(),
    ensures
        final(q).wf(),
        (match r {
            Ok(()) => {
                &&& parse_payment_spec(body@, now) is Some
                &&& final(q).cursor() == (old(q).cursor() + 1) % (
                crate::rinha_chan::CHANNEL_COUNT as int)
                &&& old(q).shard(old(q).cursor()).len() < crate::rinha_chan::CHANNEL_BUFFER
                &&& final(q).shard(old(q).cursor()).len() == old(q).shard(
                    old(q).cursor(),
                ).len() + 1
                &&& final(q).shard(old(q).cursor()).last()@ == parse_payment_spec(
                    body@,
                    now,
                )->Some_0
                &&& forall|i: int|
                    0 <= i < old(q).shard(old(q).cursor()).len() ==> final(q).shard(
                        old(q).cursor(),
                    )[i] == old(q).shard(old(q).cursor())[i]
                &&& forall|i: int|
                    0 <= i < crate::rinha_chan::CHANNEL_COUNT && i != old(q).cursor()
                        ==> final(q).shard(i) == old(q).shard(i)
            },
            Err(PaymentsError::MalformedBody) => {
                &&& parse_payment_spec(body@, now) is None
                &&& *final(q) == *old(q)
            },
            Err(PaymentsError::QueueFull) => {
                &&& parse_payment_spec(body@, now) is Some
                &&& old(q).shard(old(q).cursor()).len() >= crate::rinha_chan::CHANNEL_BUFFER
                &&& final(q).cursor() == (old(q).cursor() + 1) % (
                crate::rinha_chan::CHANNEL_COUNT as int)
                &&& forall|i: int|
                    0 <= i < crate::rinha_chan::CHANNEL_COUNT ==> final(q).shard(i)
                        == old(q).shard(i)
            },
        }),
{
    match parse_payment(body, now) {
        None => Err(PaymentsError::MalformedBody),
        Some(p) => {
            match q.send(p) {
                Ok(()) => Ok(()),
                Err(_) => Err(PaymentsError::QueueFull),
            }
        },
    }
}

/// `from=` — a summary query parameter.
pub open spec fn lit_from_key() -> Seq<u8> {
    seq!['f' as u8, 'r' as u8, 'o' as u8, 'm' as u8, '=' as u8]
}

/// `to=` — a summary query parameter.
pub open spec fn lit_to_key() -> Seq<u8> {
    seq!['t' as u8, 'o' as u8, '=' as u8]
}

/// What one `&`-separated query segment `[i, j)` does to the window: a
/// `from=` or `to=` segment whose value reads as RFC-3339 replaces that
/// bound; every other segment, and every unreadable value, changes nothing.
pub open spec fn apply_param(q: Seq<u8>, i: int, j: int, from0: i64, to0: i64) -> (i64, i64) {
    if j - i >= 5 && q.subrange(i, i + 5) == lit_from_key() {
        match rfc3339_instant_of(q.subrange(i + 5, j)) {
            Some(t) => (t, to0),
            None => (from0, to0),
        }
    } else if j - i >= 3 && q.subrange(i, i + 3) == lit_to_key() {
        match rfc3339_instant_of(q.subrange(i + 3, j)) {
            Some(t) => (from0, t),
            None => (from0, to0),
        }
    } else {
        (from0, to0)
    }
}

/// The window the query text from position `i` on leaves, starting from
/// `(from0, to0)`; a later valid parameter wins over an earlier one.
pub open spec fn window_spec(q: Seq<u8>, i: int, from0: i64, to0: i64) -> (i64, i64)
    decreases q.len() - i,
    via window_spec_decreases
{
    if !(0 <= i <= q.len()) {
        (from0, to0)
    } else {
        let j = scan_until_spec(q, i, '&' as u8);
        let next = apply_param(q, i, j, from0, to0);
        if j >= q.len() {
            next
        } else {
            window_spec(q, j + 1, next.0, next.1)
        }
    }
}

#[via_fn]
proof fn window_spec_decreases(q: Seq<u8>, i: int, from0: i64, to0: i64) {
    if 0 <= i <= q.len() {
        crate::rinha_num::lemma_scan_until_ge(q, i, '&' as u8);
    }
}

/// Reads the summary window from the raw query text.  Absent or unreadable
/// bounds keep their defaults: the epoch for `from`, the clock (`now`) for
/// `to`.
pub fn parse_summary_window(q: &[u8], now: i64) -> (r: (i64, i64))
    ensures
        r == window_spec(q@, 0, 0, now),
{
    let mut from: i64 = 0;
    let mut to: i64 = now;
    let mut i: usize = 0;
    while i < q.len()
        invariant
            i <= q@.len(),
            window_spec(q@, 0, 0, now) == window_spec(q@, i as int, from, to),
        decreases q@.len() - i,
    {
        let j = scan_until(q, i, '&' as u8);
        let ghost from0 = from;
        let ghost to0 = to;
        let from_key = lit_from_key_vec();
        let to_key = lit_to_key_vec();
        if has_lit_at(q, i, &from_key) && from_key.len() <= j - i {
            match parse_rfc3339(&q[i + 5..j]) {
                Some(t) => {
                    from = t;
                },
                None => {},
            }
        } else if has_lit_at(q, i, &to_key) && to_key.len() <= j - i {
            match parse_rfc3339(&q[i + 3..j]) {
                Some(t) => {
                    to = t;
                },
                None => {},
            }
        }
        proof {
            assert((from, to) == apply_param(q@, i as int, j as int, from0, to0));
        }
        if j >= q.len() {
            return (from, to);
        }
        i = j + 1;
    }
    proof {
        assert(window_spec(q@, i as int, from, to) == (from, to));
    }
    (from, to)
}

fn lit_from_key_vec() -> (r: Vec<u8>)
    ensures
        r@ == lit_from_key(),
{
    let mut v: Vec<u8> = Vec::new();
    v.push('f' as u8);
    v.push('r' as u8);
    v.push('o' as u8);
    v.push('m' as u8);
    v.push('=' as u8);
    proof {
        assert(v@ =~= lit_from_key());
    }
    v
}

fn lit_to_key_vec() -> (r: Vec<u8>)
    ensures
        r@ == lit_to_key(),
{
    let mut v: Vec<u8> = Vec::new();
    v.push('t' as u8);
    v.push('o' as u8);
    v.push('=' as u8);
    proof {
        assert(v@ =~= lit_to_key());
    }
    v
}

/// Why `GET /payments-summary` could not answer.  The handler itself never
/// fails; the variant exists for the wire layer around it.
#[derive(Clone, Copy, PartialEq, Eq, Structural, Debug)]
pub enum PaymentsSummaryError {
    Infallible,
}

/// `GET /payments-summary`: reads the window from the query (`None`: no
/// query at all), scans both ledgers over it, and renders the two-bucket
/// summary body.
pub fn payments_summary(store: &Store, query: Option<&[u8]>, now: i64) -> (r: (
    TargetCounter,
    Vec<u8>,
))
    ensures
        ({
            let w = match query {
                Some(q) => window_spec(q@, 0, 0, now),
                None => (0, now),
            };
            &&& r.0.default.requests == range_count(store.default_store@, w.0, w.1)
            &&& r.0.default.amount_cents == range_total(store.default_store@, w.0, w.1)
            &&& r.0.fallback.requests == range_count(store.fallback_store@, w.0, w.1)
            &&& r.0.fallback.amount_cents == range_total(store.fallback_store@, w.0, w.1)
            &&& r.1@ == json_summary(r.0)
        }),
{
    let (from, to) = match query {
        Some(q) => parse_summary_window(q, now),
        None => (0, now),
    };
    let counter = store.summary(from, to);
    let body = serialize_summary(&counter);
    (counter, body)
}

/// Why an unknown route could not be answered.  Building the 404 itself
/// never fails; the variant exists for the wire layer around it.
#[derive(Clone, Copy, PartialEq, Eq, Structural, Debug)]
pub enum NotFoundError {
    Http,
}

/// The status of an unknown route: 404, empty body.
pub fn not_found() -> (r: u16)
    ensures
        r == 404,
{
    404
}

} // verus!
