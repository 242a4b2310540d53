//! The bounded hand-off between ingress and the dispatcher workers.
//!
//! A fixed set of shards, each a bounded FIFO of payments; producers are
//! spread over the shards round-robin, and each worker drains one shard.
//! `send` refuses when its shard is full — the application's cooperative
//! wait (try again after yielding) is what turns that refusal into
//! backpressure — and `recv` takes the front, so each shard hands payments
//! out in exactly the order sends completed.

use crate::rinha_domain::Payment;
use std::collections::VecDeque;
use vstd::prelude::*;

verus! {

/// Capacity of one shard.
pub const CHANNEL_BUFFER: usize = 65536;

/// How many shards there are.
pub const CHANNEL_COUNT: usize = 5;

/// One bounded FIFO shard.
pub struct PaymentQueue {
    items: VecDeque<Payment>,
}

impl View for PaymentQueue {
    type V = Seq<Payment>;

    closed spec fn view(&self) -> Seq<Payment> {
        self.items@
    }
}

impl PaymentQueue {
    pub fn new() -> (r: PaymentQueue)
        ensures
            r@ == Seq::<Payment>::empty(),
    {
        let r = PaymentQueue { items: VecDeque::new() };
        proof {
            assert(r@ =~= Seq::<Payment>::empty());
        }
        r
    }

    pub fn len(&self) -> (r: usize)
        ensures
            r == self@.len(),
    {
        self.items.len()
    }

    /// Appends `p` when there is room; hands it back when the shard is full.
    pub fn send(&mut self, p: Payment) -> (r: Result<(), Payment>)
        ensures
            (match r {
                Ok(()) => {
                    &&& old(self)@.len() < CHANNEL_BUFFER
                    &&& final(self)@ == old(self)@.push(p)
                },
                Err(back) => {
                    &&& old(self)@.len() >= CHANNEL_BUFFER
                    &&& final(self)@ == old(self)@
                    &&& back == p
                },
            }),
    {
        if self.items.len() < CHANNEL_BUFFER {
            self.items.push_back(p);
            Ok(())
        } else {
            Err(p)
        }
    }

    /// Takes the oldest payment, the front of the shard.
    pub fn recv(&mut self) -> (r: Option<Payment>)
        ensures
            (match r {
                Some(p) => {
                    &&& old(self)@.len() > 0
                    &&& p == old(self)@[0]
                    &&& final(self)@ == old(self)@.subrange(1, old(self)@.len() as int)
                },
                None => {
                    &&& old(self)@.len() == 0
                    &&& final(self)@ == old(self)@
                },
            }),
    {
        self.items.pop_front()
    }
}

/// Per shard, the order is first-in first-out: completed sends append, so
/// after sending `a` and then `b` onto a backlog every backlog payment
/// stands before `a` and `a` before `b`; `recv` always takes the front, so
/// they leave in exactly that order.
pub proof fn lemma_queue_fifo(backlog: Seq<Payment>, a: Payment, b: Payment)
    ensures
        backlog.push(a).push(b).len() == backlog.len() + 2,
        forall|i: int| 0 <= i < backlog.len() ==> backlog.push(a).push(b)[i] == backlog[i],
        backlog.push(a).push(b)[backlog.len() as int] == a,
        backlog.push(a).push(b)[backlog.len() as int + 1] == b,
{
}

/// What `n` consecutive receives yield from a shard holding `s`: each one
/// takes the front and leaves the rest, exactly as `recv` promises.
pub open spec fn drain_model(s: Seq<Payment>, n: int) -> Seq<Payment>
    decreases n,
{
    if n <= 0 || s.len() == 0 {
        Seq::empty()
    } else {
        seq![s[0]] + drain_model(s.subrange(1, s.len() as int), n - 1)
    }
}

/// Consumers receive in the order producers completed their sends: draining
/// `n` payments from a shard holding `s` yields precisely the first `n`
/// payments of `s`, oldest first.
pub proof fn lemma_queue_drain_order(s: Seq<Payment>, n: int)
    requires
        0 <= n <= s.len(),
    ensures
        drain_model(s, n) == s.take(n),
    decreases n,
{
    if n == 0 {
        assert(drain_model(s, 0) =~= s.take(0));
    } else {
        let rest = s.subrange(1, s.len() as int);
        lemma_queue_drain_order(rest, n - 1);
        assert(drain_model(s, n) == seq![s[0]] + rest.take(n - 1));
        assert(seq![s[0]] + rest.take(n - 1) =~= s.take(n));
    }
}

/// The sharded queue: a fixed shard set and the round-robin cursor that
/// spreads producers over it.
pub struct ShardedQueue {
    shards: Vec<PaymentQueue>,
    next: usize,
}

impl ShardedQueue {
    pub closed spec fn wf(&self) -> bool {
        &&& self.shards@.len() == CHANNEL_COUNT
        &&& self.next < CHANNEL_COUNT
    }

    /// The payments a shard holds, oldest first.
    pub closed spec fn shard(&self, i: int) -> Seq<Payment> {
        self.shards@[i]@
    }

    /// Which shard the next send lands on.
    pub closed spec fn cursor(&self) -> int {
        self.next as int
    }

    /// Sends `p` to the shard under the cursor and advances the cursor;
    /// when that shard is full the payment comes back and only the cursor
    /// moves.
    pub fn send(&mut self, p: Payment) -> (r: Result<(), Payment>)
        requires
            old(self).wf(),
        ensures
            final(self).wf(),
            final(self).cursor() == (old(self).cursor() + 1) % (CHANNEL_COUNT as int),
            (match r {
                Ok(()) => {
                    &&& old(self).shard(old(self).cursor()).len() < CHANNEL_BUFFER
                    &&& final(self).shard(old(self).cursor()) == old(self).shard(
                        old(self).cursor(),
                    ).push(p)
                },
                Err(back) => {
                    &&& old(self).shard(old(self).cursor()).len() >= CHANNEL_BUFFER
                    &&& final(self).shard(old(self).cursor()) == old(self).shard(
                        old(self).cursor(),
                    )
                    &&& back == p
                },
            }),
            forall|i: int|
                0 <= i < CHANNEL_COUNT && i != old(self).cursor() ==> final(self).shard(i) == old(
                    self,
                ).shard(i),
    {
        let idx = self.next;
        self.next = (self.next + 1) % CHANNEL_COUNT;
        let mut q = self.shards.remove(idx);
        let r = q.send(p);
        self.shards.insert(idx, q);
        proof {
            assert(self.shards@ =~= old(self).shards@.update(idx as int, q));
        }
        r
    }

    /// Takes the oldest payment of shard `i`; each worker drains one shard.
    pub fn recv(&mut self, i: usize) -> (r: Option<Payment>)
        requires
            old(self).wf(),
            i < CHANNEL_COUNT,
        ensures
            final(self).wf(),
            final(self).cursor() == old(self).cursor(),
            (match r {
                Some(p) => {
                    &&& old(self).shard(i as int).len() > 0
                    &&& p == old(self).shard(i as int)[0]
                    &&& final(self).shard(i as int) == old(self).shard(i as int).subrange(
                        1,
                        old(self).shard(i as int).len() as int,
                    )
                },
                None => {
                    &&& old(self).shard(i as int).len() == 0
                    &&& final(self).shard(i as int) == old(self).shard(i as int)
                },
            }),
            forall|j: int|
                0 <= j < CHANNEL_COUNT && j != i ==> final(self).shard(j) == old(self).shard(j),
    {
        let mut q = self.shards.remove(i);
        let r = q.recv();
        self.shards.insert(i, q);
        proof {
            assert(self.shards@ =~= old(self).shards@.update(i as int, q));
        }
        r
    }
}

/// A fresh sharded queue: every shard empty, the cursor on the first shard.
pub fn boostrap() -> (r: ShardedQueue)
    ensures
        r.wf(),
        r.cursor() == 0,
        forall|i: int| 0 <= i < CHANNEL_COUNT ==> r.shard(i).len() == 0,
{
    let mut shards: Vec<PaymentQueue> = Vec::new();
    let mut i: usize = 0;
    while i < CHANNEL_COUNT
        invariant
            i <= CHANNEL_COUNT,
            shards@.len() == i,
            forall|j: int| 0 <= j < i ==> shards@[j]@.len() == 0,
        decreases CHANNEL_COUNT - i,
    {
        shards.push(PaymentQueue::new());
        i = i + 1;
    }
    ShardedQueue { shards, next: 0 }
}

} // verus!
