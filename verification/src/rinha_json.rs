//! The gateway's JSON wire format, byte for byte.
//!
//! Three shapes matter: the payment object that clients submit and the
//! dispatcher posts upstream, the health object a probe answer carries, and
//! the two-bucket summary the gateway serves.  The payment reader takes the
//! documented compact shape — `{"correlationId":"<uuid>","amount":<number>}`
//! with an optional trailing `"requestedAt":"<RFC-3339>"` member — and
//! rejects anything else; a rejected body is answered as a client error.  The
//! health reader takes an object that opens with its `failing` member and
//! pays no attention to what follows it; a probe answer of any other shape
//! counts as a failed probe and leaves the previous health standing.

use crate::rinha_domain::{is_uuid, is_uuid_seq, Health, Payment, PaymentModel, TargetCounter};
use crate::rinha_num::{
    amount_end, dec_amount, dec_digits, is_digit, lemma_parse_amount_of_dec, parse_amount,
    parse_amount_at, push_amount, push_dec, scan_until, scan_until_spec,
};
use crate::rinha_time::{format_rfc3339, rfc3339_bytes_of, rfc3339_instant_of};
use vstd::prelude::*;

verus! {

/// `{"correlationId":"` — what a payment object opens with.
pub open spec fn lit_pay_open() -> Seq<u8> {
    seq![
        '{' as u8,
        '"' as u8,
        'c' as u8,
        'o' as u8,
        'r' as u8,
        'r' as u8,
        'e' as u8,
        'l' as u8,
        'a' as u8,
        't' as u8,
        'i' as u8,
        'o' as u8,
        'n' as u8,
        'I' as u8,
        'd' as u8,
        '"' as u8,
        ':' as u8,
        '"' as u8,
    ]
}

/// `","amount":` — between the correlation id and the amount.
pub open spec fn lit_pay_amount() -> Seq<u8> {
    seq![
        '"' as u8,
        ',' as u8,
        '"' as u8,
        'a' as u8,
        'm' as u8,
        'o' as u8,
        'u' as u8,
        'n' as u8,
        't' as u8,
        '"' as u8,
        ':' as u8,
    ]
}

/// `,"requestedAt":"` — between the amount and the timestamp.
pub open spec fn lit_pay_requested() -> Seq<u8> {
    seq![
        ',' as u8,
        '"' as u8,
        'r' as u8,
        'e' as u8,
        'q' as u8,
        'u' as u8,
        'e' as u8,
        's' as u8,
        't' as u8,
        'e' as u8,
        'd' as u8,
        'A' as u8,
        't' as u8,
        '"' as u8,
        ':' as u8,
        '"' as u8,
    ]
}

/// `"}` — what a payment object with a timestamp closes with.
pub open spec fn lit_pay_close() -> Seq<u8> {
    seq!['"' as u8, '}' as u8]
}

/// `{"failing":` — what a health object opens with.
pub open spec fn lit_health_open() -> Seq<u8> {
    seq![
        '{' as u8,
        '"' as u8,
        'f' as u8,
        'a' as u8,
        'i' as u8,
        'l' as u8,
        'i' as u8,
        'n' as u8,
        'g' as u8,
        '"' as u8,
        ':' as u8,
    ]
}

/// `true`
pub open spec fn lit_true() -> Seq<u8> {
    seq!['t' as u8, 'r' as u8, 'u' as u8, 'e' as u8]
}

/// `false`
pub open spec fn lit_false() -> Seq<u8> {
    seq!['f' as u8, 'a' as u8, 'l' as u8, 's' as u8, 'e' as u8]
}

/// `{"default":{"totalRequests":` — what a summary opens with.
pub open spec fn lit_sum_open() -> Seq<u8> {
    seq![
        '{' as u8,
        '"' as u8,
        'd' as u8,
        'e' as u8,
        'f' as u8,
        'a' as u8,
        'u' as u8,
        'l' as u8,
        't' as u8,
        '"' as u8,
        ':' as u8,
        '{' as u8,
        '"' as u8,
        't' as u8,
        'o' as u8,
        't' as u8,
        'a' as u8,
        'l' as u8,
        'R' as u8,
        'e' as u8,
        'q' as u8,
        'u' as u8,
        'e' as u8,
        's' as u8,
        't' as u8,
        's' as u8,
        '"' as u8,
        ':' as u8,
    ]
}

/// `,"totalAmount":` — between a bucket's count and its amount.
pub open spec fn lit_sum_amount() -> Seq<u8> {
    seq![
        ',' as u8,
        '"' as u8,
        't' as u8,
        'o' as u8,
        't' as u8,
        'a' as u8,
        'l' as u8,
        'A' as u8,
        'm' as u8,
        'o' as u8,
        'u' as u8,
        'n' as u8,
        't' as u8,
        '"' as u8,
        ':' as u8,
    ]
}

/// `},"fallback":{"totalRequests":` — between the two buckets.
pub open spec fn lit_sum_fallback() -> Seq<u8> {
    seq![
        '}' as u8,
        ',' as u8,
        '"' as u8,
        'f' as u8,
        'a' as u8,
        'l' as u8,
        'l' as u8,
        'b' as u8,
        'a' as u8,
        'c' as u8,
        'k' as u8,
        '"' as u8,
        ':' as u8,
        '{' as u8,
        '"' as u8,
        't' as u8,
        'o' as u8,
        't' as u8,
        'a' as u8,
        'l' as u8,
        'R' as u8,
        'e' as u8,
        'q' as u8,
        'u' as u8,
        'e' as u8,
        's' as u8,
        't' as u8,
        's' as u8,
        '"' as u8,
        ':' as u8,
    ]
}

/// `}}` — what a summary closes with.
pub open spec fn lit_sum_close() -> Seq<u8> {
    seq!['}' as u8, '}' as u8]
}

/// Appends `s` to `out`.
pub fn push_bytes(out: &mut Vec<u8>, s: &[u8])
    ensures
        final(out)@ == old(out)@ + s@,
{
    out.extend_from_slice(s);
}

fn lit_pay_open_vec() -> (r: Vec<u8>)
    ensures
        r@ == lit_pay_open(),
{
    let mut v: Vec<u8> = Vec::new();
    v.push('{' as u8);
    v.push('"' as u8);
    v.push('c' as u8);
    v.push('o' as u8);
    v.push('r' as u8);
    v.push('r' as u8);
    v.push('e' as u8);
    v.push('l' as u8);
    v.push('a' as u8);
    v.push('t' as u8);
    v.push('i' as u8);
    v.push('o' as u8);
    v.push('n' as u8);
    v.push('I' as u8);
    v.push('d' as u8);
    v.push('"' as u8);
    v.push(':' as u8);
    v.push('"' as u8);
    proof {
        assert(v@ =~= lit_pay_open());
    }
    v
}

fn lit_pay_amount_vec() -> (r: Vec<u8>)
    ensures
        r@ == lit_pay_amount(),
{
    let mut v: Vec<u8> = Vec::new();
    v.push('"' as u8);
    v.push(',' as u8);
    v.push('"' as u8);
    v.push('a' as u8);
    v.push('m' as u8);
    v.push('o' as u8);
    v.push('u' as u8);
    v.push('n' as u8);
    v.push('t' as u8);
    v.push('"' as u8);
    v.push(':' as u8);
    proof {
        assert(v@ =~= lit_pay_amount());
    }
    v
}

fn lit_pay_requested_vec() -> (r: Vec<u8>)
    ensures
        r@ == lit_pay_requested(),
{
    let mut v: Vec<u8> = Vec::new();
    v.push(',' as u8);
    v.push('"' as u8);
    v.push('r' as u8);
    v.push('e' as u8);
    v.push('q' as u8);
    v.push('u' as u8);
    v.push('e' as u8);
    v.push('s' as u8);
    v.push('t' as u8);
    v.push('e' as u8);
    v.push('d' as u8);
    v.push('A' as u8);
    v.push('t' as u8);
    v.push('"' as u8);
    v.push(':' as u8);
    v.push('"' as u8);
    proof {
        assert(v@ =~= lit_pay_requested());
    }
    v
}

fn lit_health_open_vec() -> (r: Vec<u8>)
    ensures
        r@ == lit_health_open(),
{
    let mut v: Vec<u8> = Vec::new();
    v.push('{' as u8);
    v.push('"' as u8);
    v.push('f' as u8);
    v.push('a' as u8);
    v.push('i' as u8);
    v.push('l' as u8);
    v.push('i' as u8);
    v.push('n' as u8);
    v.push('g' as u8);
    v.push('"' as u8);
    v.push(':' as u8);
    proof {
        assert(v@ =~= lit_health_open());
    }
    v
}

fn lit_true_vec() -> (r: Vec<u8>)
    ensures
        r@ == lit_true(),
{
    let mut v: Vec<u8> = Vec::new();
    v.push('t' as u8);
    v.push('r' as u8);
    v.push('u' as u8);
    v.push('e' as u8);
    proof {
        assert(v@ =~= lit_true());
    }
    v
}

fn lit_false_vec() -> (r: Vec<u8>)
    ensures
        r@ == lit_false(),
{
    let mut v: Vec<u8> = Vec::new();
    v.push('f' as u8);
    v.push('a' as u8);
    v.push('l' as u8);
    v.push('s' as u8);
    v.push('e' as u8);
    proof {
        assert(v@ =~= lit_false());
    }
    v
}

fn lit_sum_open_vec() -> (r: Vec<u8>)
    ensures
        r@ == lit_sum_open(),
{
    let mut v: Vec<u8> = Vec::new();
    v.push('{' as u8);
    v.push('"' as u8);
    v.push('d' as u8);
    v.push('e' as u8);
    v.push('f' as u8);
    v.push('a' as u8);
    v.push('u' as u8);
    v.push('l' as u8);
    v.push('t' as u8);
    v.push('"' as u8);
    v.push(':' as u8);
    v.push('{' as u8);
    v.push('"' as u8);
    v.push('t' as u8);
    v.push('o' as u8);
    v.push('t' as u8);
    v.push('a' as u8);
    v.push('l' as u8);
    v.push('R' as u8);
    v.push('e' as u8);
    v.push('q' as u8);
    v.push('u' as u8);
    v.push('e' as u8);
    v.push('s' as u8);
    v.push('t' as u8);
    v.push('s' as u8);
    v.push('"' as u8);
    v.push(':' as u8);
    proof {
        assert(v@ =~= lit_sum_open());
    }
    v
}

fn lit_sum_amount_vec() -> (r: Vec<u8>)
    ensures
        r@ == lit_sum_amount(),
{
    let mut v: Vec<u8> = Vec::new();
    v.push(',' as u8);
    v.push('"' as u8);
    v.push('t' as u8);
    v.push('o' as u8);
    v.push('t' as u8);
    v.push('a' as u8);
    v.push('l' as u8);
    v.push('A' as u8);
    v.push('m' as u8);
    v.push('o' as u8);
    v.push('u' as u8);
    v.push('n' as u8);
    v.push('t' as u8);
    v.push('"' as u8);
    v.push(':' as u8);
    proof {
        assert(v@ =~= lit_sum_amount());
    }
    v
}

fn lit_sum_fallback_vec() -> (r: Vec<u8>)
    ensures
        r@ == lit_sum_fallback(),
{
    let mut v: Vec<u8> = Vec::new();
    v.push('}' as u8);
    v.push(',' as u8);
    v.push('"' as u8);
    v.push('f' as u8);
    v.push('a' as u8);
    v.push('l' as u8);
    v.push('l' as u8);
    v.push('b' as u8);
    v.push('a' as u8);
    v.push('c' as u8);
    v.push('k' as u8);
    v.push('"' as u8);
    v.push(':' as u8);
    v.push('{' as u8);
    v.push('"' as u8);
    v.push('t' as u8);
    v.push('o' as u8);
    v.push('t' as u8);
    v.push('a' as u8);
    v.push('l' as u8);
    v.push('R' as u8);
    v.push('e' as u8);
    v.push('q' as u8);
    v.push('u' as u8);
    v.push('e' as u8);
    v.push('s' as u8);
    v.push('t' as u8);
    v.push('s' as u8);
    v.push('"' as u8);
    v.push(':' as u8);
    proof {
        assert(v@ =~= lit_sum_fallback());
    }
    v
}

/// Whether `s` continues with `lit` at position `from`.
pub(crate) fn has_lit_at(s: &[u8], from: usize, lit: &Vec<u8>) -> (r: bool)
    requires
        from <= s@.len(),
    ensures
        r == (from + lit@.len() <= s@.len() && s@.subrange(
            from as int,
            from as int + lit@.len() as int,
        ) == lit@),
{
    if s.len() - from < lit.len() {
        return false;
    }
    crate::rinha_domain::bytes_eq(&s[from..from + lit.len()], lit.as_slice())
}

/// What the payment reader accepts: the compact canonical payment object,
/// with `requestedAt` defaulting to `now` when the member is absent.
pub open spec fn parse_payment_spec(s: Seq<u8>, now: i64) -> Option<PaymentModel> {
    if !(s.len() >= 18 && s.subrange(0, 18) == lit_pay_open()) {
        None
    } else {
        let q1 = scan_until_spec(s, 18, '"' as u8);
        let cid = s.subrange(18, q1);
        if !(q1 < s.len() && is_uuid_seq(cid)) {
            None
        } else if !(q1 + 11 <= s.len() && s.subrange(q1, q1 + 11) == lit_pay_amount()) {
            None
        } else {
            match parse_amount_at(s, q1 + 11) {
                None => None,
                Some(cents) => {
                    let a1 = amount_end(s, q1 + 11);
                    if a1 < s.len() && s[a1] == '}' as u8 {
                        if a1 + 1 == s.len() {
                            Some(
                                PaymentModel {
                                    correlation_id: cid,
                                    amount_cents: cents,
                                    requested_at: now,
                                },
                            )
                        } else {
                            None
                        }
                    } else if a1 + 16 <= s.len() && s.subrange(a1, a1 + 16)
                        == lit_pay_requested() {
                        let q2 = scan_until_spec(s, a1 + 16, '"' as u8);
                        if q2 + 2 == s.len() && s[q2 + 1] == '}' as u8 {
                            match rfc3339_instant_of(s.subrange(a1 + 16, q2)) {
                                Some(t) => Some(
                                    PaymentModel {
                                        correlation_id: cid,
                                        amount_cents: cents,
                                        requested_at: t,
                                    },
                                ),
                                None => None,
                            }
                        } else {
                            None
                        }
                    } else {
                        None
                    }
                },
            }
        }
    }
}

/// Reads a payment object.  Its timestamp member, when absent, is filled
/// with `now`.
pub fn parse_payment(s: &[u8], now: i64) -> (r: Option<Payment>)
    ensures
        (match r {
            Some(p) => parse_payment_spec(s@, now) == Some(p@) && p.wf(),
            None => parse_payment_spec(s@, now) is None,
        }),
{
    let open = lit_pay_open_vec();
    if !has_lit_at(s, 0, &open) {
        return None;
    }
    let q1 = scan_until(s, 18, '"' as u8);
    if q1 >= s.len() {
        return None;
    }
    let cid_slice = &s[18..q1];
    if !is_uuid(cid_slice) {
        return None;
    }
    let amount_key = lit_pay_amount_vec();
    if !has_lit_at(s, q1, &amount_key) {
        return None;
    }
    let (cents_opt, a1) = parse_amount(s, q1 + 11);
    let cents = match cents_opt {
        Some(c) => c,
        None => {
            return None;
        },
    };
    if a1 < s.len() && s[a1] == '}' as u8 {
        if a1 + 1 == s.len() {
            let cid = vstd::slice::slice_to_vec(cid_slice);
            return Some(Payment { correlation_id: cid, amount_cents: cents, requested_at: now });
        }
        return None;
    }
    let req_key = lit_pay_requested_vec();
    if !has_lit_at(s, a1, &req_key) {
        return None;
    }
    let q2 = scan_until(s, a1 + 16, '"' as u8);
    if !(s.len() >= 2 && q2 == s.len() - 2) {
        return None;
    }
    if s[q2 + 1] != '}' as u8 {
        return None;
    }
    match crate::rinha_time::parse_rfc3339(&s[a1 + 16..q2]) {
        Some(t) => {
            let cid = vstd::slice::slice_to_vec(cid_slice);
            Some(Payment { correlation_id: cid, amount_cents: cents, requested_at: t })
        },
        None => None,
    }
}

/// What the health reader accepts: an object opening with its `failing`
/// member; what follows that member is not looked at.
pub open spec fn parse_health_spec(s: Seq<u8>) -> Option<bool> {
    if !(s.len() >= 11 && s.subrange(0, 11) == lit_health_open()) {
        None
    } else if s.len() >= 16 && s.subrange(11, 15) == lit_true() && (s[15] == ',' as u8 || s[15]
        == '}' as u8) {
        Some(true)
    } else if s.len() >= 17 && s.subrange(11, 16) == lit_false() && (s[16] == ',' as u8 || s[16]
        == '}' as u8) {
        Some(false)
    } else {
        None
    }
}

/// Reads a health probe answer.
pub fn parse_health(s: &[u8]) -> (r: Option<Health>)
    ensures
        (match r {
            Some(h) => parse_health_spec(s@) == Some(h.failing),
            None => parse_health_spec(s@) is None,
        }),
{
    let open = lit_health_open_vec();
    if !has_lit_at(s, 0, &open) {
        return None;
    }
    let t = lit_true_vec();
    if has_lit_at(s, 11, &t) && s.len() >= 16 && (s[15] == ',' as u8 || s[15] == '}' as u8) {
        return Some(Health { failing: true });
    }
    let f = lit_false_vec();
    if has_lit_at(s, 11, &f) && s.len() >= 17 && (s[16] == ',' as u8 || s[16] == '}' as u8) {
        return Some(Health { failing: false });
    }
    None
}

/// The JSON rendering of a payment, with its timestamp written out.
pub open spec fn json_payment(p: PaymentModel) -> Seq<u8> {
    lit_pay_open() + p.correlation_id + lit_pay_amount() + dec_amount(p.amount_cents as nat)
        + lit_pay_requested() + rfc3339_bytes_of(p.requested_at) + lit_pay_close()
}

/// Reading the rendering of a well-formed payment gives back that payment,
/// whatever `now` is.  The two timestamp hypotheses hold of every rendering
/// the RFC-3339 formatter returns.
pub proof fn lemma_parse_payment_of_json(p: PaymentModel, now: i64)
    requires
        is_uuid_seq(p.correlation_id),
        forall|i: int|
            0 <= i < rfc3339_bytes_of(p.requested_at).len() ==> rfc3339_bytes_of(
                p.requested_at,
            )[i] != 34,
        rfc3339_instant_of(rfc3339_bytes_of(p.requested_at)) == Some(p.requested_at),
    ensures
        parse_payment_spec(json_payment(p), now) == Some(p),
{
    let s = json_payment(p);
    let am = dec_amount(p.amount_cents as nat);
    let ts = rfc3339_bytes_of(p.requested_at);
    let o2: int = (18 + 36) as int;
    let o3: int = o2 + 11;
    let o4: int = o3 + am.len() as int;
    let o5: int = o4 + 16;
    let o6: int = o5 + ts.len() as int;
    assert(s.len() == o6 + 2);
    assert(s.subrange(0, 18) =~= lit_pay_open());
    assert(s.subrange(18, o2) =~= p.correlation_id);
    assert(s.subrange(o2, o3) =~= lit_pay_amount());
    assert(s.subrange(o3, o4) =~= am);
    assert(s.subrange(o4, o5) =~= lit_pay_requested());
    assert(s.subrange(o5, o6) =~= ts);
    assert(s[o6] == '"' as u8 && s[o6 + 1] == '}' as u8);
    assert forall|k: int| 18 <= k < o2 implies s[k] != '"' as u8 by {
        assert(s[k] == p.correlation_id[k - 18]);
        assert(crate::rinha_domain::uuid_byte_ok(p.correlation_id, k - 18));
    }
    assert(s[o2] == lit_pay_amount()[0]);
    crate::rinha_num::lemma_scan_until(s, 18, o2, '"' as u8);
    assert(scan_until_spec(s, 18, '"' as u8) == o2);
    assert(s.subrange(18, o2) == p.correlation_id && is_uuid_seq(s.subrange(18, o2)));
    assert(s[o4] == lit_pay_requested()[0]);
    assert(s[o4] == ',' as u8);
    assert(!is_digit(s[o4]) && s[o4] != 46);
    lemma_parse_amount_of_dec(s, o3, p.amount_cents);
    assert(parse_amount_at(s, o3) == Some(p.amount_cents));
    assert(amount_end(s, o3) == o4);
    assert(s[o4] != '}' as u8);
    assert forall|k: int| o5 <= k < o6 implies s[k] != '"' as u8 by {
        assert(s[k] == ts[k - o5]);
    }
    assert(s[o6] == '"' as u8);
    crate::rinha_num::lemma_scan_until(s, o5, o6, '"' as u8);
    assert(scan_until_spec(s, o5, '"' as u8) == o6);
    assert(rfc3339_instant_of(s.subrange(o5, o6)) == Some(p.requested_at));
}

/// Renders a well-formed payment; the payment reader gives it back,
/// whatever `now` it is read under.
pub fn serialize_payment(p: &Payment) -> (r: Vec<u8>)
    requires
        p.wf(),
    ensures
        r@ == json_payment(p@),
        forall|now: i64| parse_payment_spec(r@, now) == Some(p@),
{
    let mut out: Vec<u8> = Vec::new();
    let open = lit_pay_open_vec();
    push_bytes(&mut out, open.as_slice());
    push_bytes(&mut out, p.correlation_id.as_slice());
    let amount_key = lit_pay_amount_vec();
    push_bytes(&mut out, amount_key.as_slice());
    push_amount(&mut out, p.amount_cents as u128);
    let req_key = lit_pay_requested_vec();
    push_bytes(&mut out, req_key.as_slice());
    let ts = format_rfc3339(p.requested_at);
    push_bytes(&mut out, ts.as_slice());
    out.push('"' as u8);
    out.push('}' as u8);
    proof {
        assert(out@ =~= json_payment(p@));
        assert forall|now: i64| parse_payment_spec(out@, now) == Some(p@) by {
            lemma_parse_payment_of_json(p@, now);
        }
    }
    out
}

/// The JSON rendering of the two-bucket summary.
pub open spec fn json_summary(t: TargetCounter) -> Seq<u8> {
    lit_sum_open() + dec_digits(t.default.requests as nat) + lit_sum_amount() + dec_amount(
        t.default.amount_cents as nat,
    ) + lit_sum_fallback() + dec_digits(t.fallback.requests as nat) + lit_sum_amount()
        + dec_amount(t.fallback.amount_cents as nat) + lit_sum_close()
}

/// Renders the two-bucket summary.
pub fn serialize_summary(t: &TargetCounter) -> (r: Vec<u8>)
    ensures
        r@ == json_summary(*t),
{
    let mut out: Vec<u8> = Vec::new();
    let open = lit_sum_open_vec();
    let amount_key = lit_sum_amount_vec();
    let fallback_key = lit_sum_fallback_vec();
    push_bytes(&mut out, open.as_slice());
    push_dec(&mut out, t.default.requests as u128);
    push_bytes(&mut out, amount_key.as_slice());
    push_amount(&mut out, t.default.amount_cents);
    push_bytes(&mut out, fallback_key.as_slice());
    push_dec(&mut out, t.fallback.requests as u128);
    push_bytes(&mut out, amount_key.as_slice());
    push_amount(&mut out, t.fallback.amount_cents);
    out.push('}' as u8);
    out.push('}' as u8);
    proof {
        assert(out@ =~= json_summary(*t));
    }
    out
}

} // verus!
