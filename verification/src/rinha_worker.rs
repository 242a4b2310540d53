//! The dispatcher's decisions: status classification, retry backoff, and
//! the per-payment state machine a worker drives.
//!
//! A worker loop is outside work — it awaits the queue, posts upstream and
//! sleeps — but every decision it takes stands here: what an upstream's
//! answer means, what follows from it, and how long the next wait is.

use crate::rinha_ambulance::UpstreamType;
use crate::rinha_domain::Payment;
use crate::rinha_storage::{spec_insert, Store};
use vstd::prelude::*;

verus! {

/// First wait after a server-class failure, in milliseconds.
pub const RETRY_BASE_MS: u64 = 10;

/// Cap on the wait after server-class failures, in milliseconds.
pub const RETRY_CAP_MS: u64 = 5000;

/// First wait when no upstream is healthy, in milliseconds.
pub const SELECT_BASE_MS: u64 = 50;

/// Cap on the wait when no upstream is healthy, in milliseconds.
pub const SELECT_CAP_MS: u64 = 10000;

/// Two to the power `n`.
pub open spec fn pow2(n: nat) -> nat
    decreases n,
{
    if n == 0 {
        1
    } else {
        2 * pow2((n - 1) as nat)
    }
}

/// The exponential backoff delay: `base` doubled `attempt` times, but never
/// above `cap`.
pub open spec fn backoff_spec(base: nat, attempt: nat, cap: nat) -> nat {
    if base * pow2(attempt) >= cap {
        cap
    } else {
        base * pow2(attempt)
    }
}

/// The delay never grows when the attempt count does not, and never passes
/// the cap.
pub proof fn lemma_backoff_monotonic(base: nat, attempt: nat, cap: nat)
    ensures
        backoff_spec(base, attempt, cap) <= backoff_spec(base, attempt + 1, cap),
        backoff_spec(base, attempt, cap) <= cap,
{
    assert(pow2(attempt + 1) == 2 * pow2(attempt));
    assert(base * pow2(attempt + 1) >= base * pow2(attempt)) by (nonlinear_arith)
        requires
            pow2(attempt + 1) >= pow2(attempt),
    ;
    assert(pow2(attempt) >= 1) by {
        lemma_pow2_pos(attempt);
    }
}

proof fn lemma_pow2_pos(n: nat)
    ensures
        pow2(n) >= 1,
    decreases n,
{
    if n > 0 {
        lemma_pow2_pos((n - 1) as nat);
    }
}

/// `min(base << attempt, cap)`, computed without ever overflowing.
pub fn backoff(base_ms: u64, attempt: u32, cap_ms: u64) -> (r: u64)
    ensures
        r == backoff_spec(base_ms as nat, attempt as nat, cap_ms as nat),
{
    let mut d: u64 = if base_ms >= cap_ms {
        cap_ms
    } else {
        base_ms
    };
    let mut k: u32 = 0;
    proof {
        assert(pow2(0) == 1);
        assert(base_ms as nat * 1 == base_ms as nat);
    }
    while k < attempt
        invariant
            k <= attempt,
            d == backoff_spec(base_ms as nat, k as nat, cap_ms as nat),
        decreases attempt - k,
    {
        let ghost b = base_ms as nat;
        let ghost c = cap_ms as nat;
        proof {
            assert(pow2(k as nat + 1) == 2 * pow2(k as nat));
            assert(b * pow2(k as nat + 1) == 2 * (b * pow2(k as nat))) by (nonlinear_arith)
                requires
                    pow2(k as nat + 1) == 2 * pow2(k as nat),
            ;
        }
        if d >= cap_ms {
            d = cap_ms;
            proof {
                assert(b * pow2(k as nat) >= c);
                assert(b * pow2(k as nat + 1) >= c);
            }
        } else {
            match d.checked_mul(2) {
                Some(doubled) => {
                    if doubled >= cap_ms {
                        d = cap_ms;
                    } else {
                        d = doubled;
                    }
                },
                None => {
                    proof {
                        assert(2 * (b * pow2(k as nat)) > u64::MAX >= c);
                    }
                    d = cap_ms;
                },
            }
        }
        k = k + 1;
    }
    d
}

/// What an upstream's answer to a POST means.  No answer at all — a
/// transport failure — counts as server-class.
#[derive(Clone, Copy, PartialEq, Eq, Structural, Debug)]
pub enum PostOutcome {
    /// A 2xx: the payment is confirmed.
    Accepted,
    /// A 5xx: retryable; the upstream is demoted.
    ServerFailed,
    /// Anything else: the payment is dropped for good.
    ClientRejected,
    /// The request never completed: treated like a 5xx.
    TransportFailed,
}

/// The classification rule over an optional status code.
pub open spec fn spec_classify(status: Option<u16>) -> PostOutcome {
    match status {
        None => PostOutcome::TransportFailed,
        Some(s) => if 200 <= s < 300 {
            PostOutcome::Accepted
        } else if 500 <= s < 600 {
            PostOutcome::ServerFailed
        } else {
            PostOutcome::ClientRejected
        },
    }
}

pub fn classify_response(status: Option<u16>) -> (r: PostOutcome)
    ensures
        r == spec_classify(status),
{
    match status {
        None => PostOutcome::TransportFailed,
        Some(s) => if 200 <= s && s < 300 {
            PostOutcome::Accepted
        } else if 500 <= s && s < 600 {
            PostOutcome::ServerFailed
        } else {
            PostOutcome::ClientRejected
        },
    }
}

/// Why a single dispatch attempt did not persist its payment.
#[derive(Clone, Copy, PartialEq, Eq, Structural, Debug)]
pub enum PaymentError {
    /// The upstream answered with a server-class status.
    ServerFailed,
    /// The request never completed.
    Transport,
}

/// The verified tail of one dispatch attempt: the POST to upstream `kind`
/// has ended with `status` (`None` for a transport failure).  Only a 2xx
/// persists the payment, under exactly the kind that confirmed it; a
/// client-class answer drops it silently, as it is not retryable; a
/// server-class answer or a transport failure comes back as an error for
/// the caller to retry.
pub fn try_process_payment(store: &mut Store, payment: &Payment, kind: UpstreamType, status: Option<
    u16,
>) -> (r: Result<(), PaymentError>)
    requires
        old(store).wf(),
    ensures
        final(store).wf(),
        (match spec_classify(status) {
            PostOutcome::Accepted => {
                &&& r is Ok
                &&& final(store).of_kind(kind) == spec_insert(
                    old(store).of_kind(kind),
                    payment.requested_at,
                    payment.amount_cents,
                )
                &&& forall|k: UpstreamType|
                    k != kind ==> final(store).of_kind(k) == old(store).of_kind(k)
            },
            PostOutcome::ClientRejected => {
                &&& r is Ok
                &&& *final(store) == *old(store)
            },
            PostOutcome::ServerFailed => {
                &&& r == Result::<(), PaymentError>::Err(PaymentError::ServerFailed)
                &&& *final(store) == *old(store)
            },
            PostOutcome::TransportFailed => {
                &&& r == Result::<(), PaymentError>::Err(PaymentError::Transport)
                &&& *final(store) == *old(store)
            },
        }),
{
    match classify_response(status) {
        PostOutcome::Accepted => {
            store.insert(kind, payment.requested_at, payment.amount_cents);
            Ok(())
        },
        PostOutcome::ClientRejected => Ok(()),
        PostOutcome::ServerFailed => Err(PaymentError::ServerFailed),
        PostOutcome::TransportFailed => Err(PaymentError::Transport),
    }
}

/// Where one payment stands in its dispatch.
#[derive(Clone, Copy, PartialEq, Eq, Structural, Debug)]
pub enum PaymentPhase {
    /// A worker is trying to place it.
    InFlight,
    /// An upstream of this kind confirmed it; terminal.
    Persisted(UpstreamType),
    /// A client-class answer ended it; terminal.
    Dropped,
}

/// The per-payment dispatch state a worker carries through its retries.
#[derive(Clone, Copy, PartialEq, Eq, Structural, Debug)]
pub struct DispatchState {
    pub phase: PaymentPhase,
    pub payment_attempt: u32,
    pub select_attempt: u32,
}

/// What a worker observes while dispatching one payment.
#[derive(Clone, Copy, PartialEq, Eq, Structural, Debug)]
pub enum DispatchEvent {
    /// The selector found no healthy upstream.
    NoHealthyUpstream,
    /// The POST to this upstream ended with this status (`None`: transport
    /// failure).
    UpstreamAnswer(UpstreamType, Option<u16>),
}

/// What the worker must do next.
#[derive(Clone, Copy, PartialEq, Eq, Structural, Debug)]
pub enum DispatchAction {
    /// Sleep this many milliseconds, then select again.
    SleepForUpstream(u64),
    /// Demote this upstream, sleep this many milliseconds, then select again.
    RetryAfterDemote(UpstreamType, u64),
    /// Record the payment under this kind; the dispatch is over.
    Persist(UpstreamType),
    /// Forget the payment; the dispatch is over.
    DropPayment,
}

/// A fresh dispatch: in flight, no attempts yet.
pub fn start_dispatch() -> (r: DispatchState)
    ensures
        r == (DispatchState {
            phase: PaymentPhase::InFlight,
            payment_attempt: 0,
            select_attempt: 0,
        }),
{
    DispatchState { phase: PaymentPhase::InFlight, payment_attempt: 0, select_attempt: 0 }
}

/// The dispatch transition rule.
pub open spec fn spec_dispatch_step(st: DispatchState, ev: DispatchEvent) -> (
    DispatchState,
    DispatchAction,
) {
    match ev {
        DispatchEvent::NoHealthyUpstream => (
            DispatchState {
                select_attempt: if st.select_attempt < u32::MAX {
                    (st.select_attempt + 1) as u32
                } else {
                    st.select_attempt
                },
                ..st
            },
            DispatchAction::SleepForUpstream(
                backoff_spec(
                    SELECT_BASE_MS as nat,
                    st.select_attempt as nat,
                    SELECT_CAP_MS as nat,
                ) as u64,
            ),
        ),
        DispatchEvent::UpstreamAnswer(kind, status) => match spec_classify(status) {
            PostOutcome::Accepted => (
                DispatchState { phase: PaymentPhase::Persisted(kind), ..st },
                DispatchAction::Persist(kind),
            ),
            PostOutcome::ClientRejected => (
                DispatchState { phase: PaymentPhase::Dropped, ..st },
                DispatchAction::DropPayment,
            ),
            _ => (
                DispatchState {
                    payment_attempt: if st.payment_attempt < u32::MAX {
                        (st.payment_attempt + 1) as u32
                    } else {
                        st.payment_attempt
                    },
                    ..st
                },
                DispatchAction::RetryAfterDemote(
                    kind,
                    backoff_spec(
                        RETRY_BASE_MS as nat,
                        st.payment_attempt as nat,
                        RETRY_CAP_MS as nat,
                    ) as u64,
                ),
            ),
        },
    }
}

/// One step of the dispatch loop: takes what the worker observed and says
/// what to do, advancing the attempt counters exactly as the rule does.
pub fn dispatch_step(st: &mut DispatchState, ev: DispatchEvent) -> (a: DispatchAction)
    requires
        old(st).phase is InFlight,
    ensures
        *final(st) == spec_dispatch_step(*old(st), ev).0,
        a == spec_dispatch_step(*old(st), ev).1,
{
    match ev {
        DispatchEvent::NoHealthyUpstream => {
            let delay = backoff(SELECT_BASE_MS, st.select_attempt, SELECT_CAP_MS);
            proof {
                lemma_backoff_monotonic(
                    SELECT_BASE_MS as nat,
                    st.select_attempt as nat,
                    SELECT_CAP_MS as nat,
                );
            }
            if st.select_attempt < u32::MAX {
                st.select_attempt = st.select_attempt + 1;
            }
            DispatchAction::SleepForUpstream(delay)
        },
        DispatchEvent::UpstreamAnswer(kind, status) => match classify_response(status) {
            PostOutcome::Accepted => {
                st.phase = PaymentPhase::Persisted(kind);
                DispatchAction::Persist(kind)
            },
            PostOutcome::ClientRejected => {
                st.phase = PaymentPhase::Dropped;
                DispatchAction::DropPayment
            },
            _ => {
                let delay = backoff(RETRY_BASE_MS, st.payment_attempt, RETRY_CAP_MS);
                proof {
                    lemma_backoff_monotonic(
                        RETRY_BASE_MS as nat,
                        st.payment_attempt as nat,
                        RETRY_CAP_MS as nat,
                    );
                }
                if st.payment_attempt < u32::MAX {
                    st.payment_attempt = st.payment_attempt + 1;
                }
                DispatchAction::RetryAfterDemote(kind, delay)
            },
        },
    }
}

/// The actions a run of the dispatch loop takes: one per event, until a
/// terminal phase is reached or the events run out.
pub open spec fn dispatch_run(st: DispatchState, evs: Seq<DispatchEvent>) -> Seq<DispatchAction>
    decreases evs.len(),
{
    if evs.len() == 0 || !(st.phase is InFlight) {
        Seq::empty()
    } else {
        let step = spec_dispatch_step(st, evs.first());
        seq![step.1] + dispatch_run(step.0, evs.drop_first())
    }
}

/// How many of the actions persist the payment.
pub open spec fn count_persists(actions: Seq<DispatchAction>) -> int
    decreases actions.len(),
{
    if actions.len() == 0 {
        0
    } else {
        (if actions.first() is Persist {
            1int
        } else {
            0int
        }) + count_persists(actions.drop_first())
    }
}

/// Whether `ev` is an accepting answer — a 2xx — from upstream `k`.
pub open spec fn accepts(ev: DispatchEvent, k: UpstreamType) -> bool {
    match ev {
        DispatchEvent::UpstreamAnswer(k2, status) => k2 == k && spec_classify(status)
            is Accepted,
        _ => false,
    }
}

/// A run takes at most one action per event.
pub proof fn lemma_dispatch_run_len(st: DispatchState, evs: Seq<DispatchEvent>)
    ensures
        dispatch_run(st, evs).len() <= evs.len(),
    decreases evs.len(),
{
    if evs.len() > 0 && st.phase is InFlight {
        let step = spec_dispatch_step(st, evs.first());
        lemma_dispatch_run_len(step.0, evs.drop_first());
    }
}

/// However the dispatch of one payment unfolds, it persists the payment at
/// most once; and where it does, the `Persist(k)` is the run's last action
/// and answers exactly a 2xx that upstream `k` returned for this payment.
pub proof fn lemma_dispatch_persist_once(st: DispatchState, evs: Seq<DispatchEvent>)
    ensures
        count_persists(dispatch_run(st, evs)) <= 1,
        forall|i: int, k: UpstreamType|
            0 <= i < dispatch_run(st, evs).len() && dispatch_run(st, evs)[i]
                == DispatchAction::Persist(k) ==> accepts(evs[i], k) && i == dispatch_run(
                st,
                evs,
            ).len() - 1,
    decreases evs.len(),
{
    let run = dispatch_run(st, evs);
    if evs.len() == 0 || !(st.phase is InFlight) {
        assert(run.len() == 0);
    } else {
        let step = spec_dispatch_step(st, evs.first());
        let tail = dispatch_run(step.0, evs.drop_first());
        assert(run == seq![step.1] + tail);
        assert(run.first() == step.1);
        assert(run.drop_first() =~= tail);
        lemma_dispatch_persist_once(step.0, evs.drop_first());
        match step.1 {
            DispatchAction::Persist(k) => {
                assert(step.0.phase == PaymentPhase::Persisted(k));
                assert(tail.len() == 0);
                assert(run.len() == 1);
                assert(count_persists(run) == 1);
                assert(accepts(evs.first(), k));
            },
            DispatchAction::DropPayment => {
                assert(step.0.phase == PaymentPhase::Dropped);
                assert(tail.len() == 0);
                assert(count_persists(run) == 0);
            },
            _ => {
                lemma_dispatch_run_len(step.0, evs.drop_first());
                assert(count_persists(run) == count_persists(tail));
                assert forall|i: int, k: UpstreamType|
                    0 <= i < run.len() && run[i] == DispatchAction::Persist(k) implies accepts(
                    evs[i],
                    k,
                ) && i == run.len() - 1 by {
                    assert(run[0] == step.1);
                    assert(i >= 1);
                    assert(run[i] == tail[i - 1]);
                    assert(tail[i - 1] == DispatchAction::Persist(k));
                    assert(accepts(evs.drop_first()[i - 1], k));
                    assert(i - 1 == tail.len() - 1);
                    assert(evs.drop_first() =~= evs.subrange(1, evs.len() as int));
                    assert(evs.drop_first()[i - 1] == evs[i]);
                }
            },
        }
    }
}

} // verus!
