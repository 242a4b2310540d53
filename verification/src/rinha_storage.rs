//! The time-indexed payment ledger, one ordered map per upstream kind.
//!
//! Keys are the payments' `requestedAt` timestamps in nanoseconds since the
//! Unix epoch; keys are unique, and a later insert under the same key
//! replaces the earlier entry.  The store only ever grows; there is no
//! eviction.  Summaries are range scans over `[from, to]`, both ends
//! inclusive.

use crate::rinha_ambulance::UpstreamType;
use crate::rinha_domain::{Count, TargetCounter};
use vstd::prelude::*;

verus! {

/// Strictly increasing timestamps: keys are unique and ordered.
pub open spec fn entries_sorted(s: Seq<(i64, u64)>) -> bool {
    forall|i: int, j: int| 0 <= i < j < s.len() ==> s[i].0 < s[j].0
}

/// Where an entry for `ts` lands in `s`: at the back, over an equal key, or
/// in its ordered place.
pub open spec fn spec_insert(s: Seq<(i64, u64)>, ts: i64, cents: u64) -> Seq<(i64, u64)>
    decreases s.len(),
{
    if s.len() == 0 {
        seq![(ts, cents)]
    } else if s.last().0 < ts {
        s.push((ts, cents))
    } else if s.last().0 == ts {
        s.update(s.len() - 1, (ts, cents))
    } else {
        spec_insert(s.drop_last(), ts, cents).push(s.last())
    }
}

/// Whether `ts` lies in the closed range `[from, to]`.
pub open spec fn in_range(ts: i64, from: i64, to: i64) -> bool {
    from <= ts <= to
}

/// How many entries of `s` lie in `[from, to]`.
pub open spec fn range_count(s: Seq<(i64, u64)>, from: i64, to: i64) -> int
    decreases s.len(),
{
    if s.len() == 0 {
        0
    } else {
        range_count(s.drop_last(), from, to) + if in_range(s.last().0, from, to) {
            1int
        } else {
            0int
        }
    }
}

/// The summed amount of the entries of `s` in `[from, to]`.
pub open spec fn range_total(s: Seq<(i64, u64)>, from: i64, to: i64) -> int
    decreases s.len(),
{
    if s.len() == 0 {
        0
    } else {
        range_total(s.drop_last(), from, to) + if in_range(s.last().0, from, to) {
            s.last().1 as int
        } else {
            0int
        }
    }
}

pub proof fn lemma_range_count_bounds(s: Seq<(i64, u64)>, from: i64, to: i64)
    ensures
        0 <= range_count(s, from, to) <= s.len(),
        0 <= range_total(s, from, to) <= s.len() * (u64::MAX as int),
    decreases s.len(),
{
    if s.len() > 0 {
        lemma_range_count_bounds(s.drop_last(), from, to);
    }
}

/// An insert never shrinks any range's count: what a summary has counted
/// stays counted.
pub proof fn lemma_insert_count_monotone(s: Seq<(i64, u64)>, ts: i64, cents: u64, from: i64, to: i64)
    ensures
        range_count(spec_insert(s, ts, cents), from, to) >= range_count(s, from, to),
    decreases s.len(),
{
    let t = spec_insert(s, ts, cents);
    if s.len() == 0 {
        assert(t.drop_last() =~= Seq::<(i64, u64)>::empty());
        lemma_range_count_bounds(t, from, to);
        assert(range_count(t, from, to) >= 0);
    } else if s.last().0 < ts {
        assert(t.drop_last() =~= s);
        assert(range_count(t, from, to) == range_count(s, from, to) + if in_range(
            ts,
            from,
            to,
        ) {
            1int
        } else {
            0int
        });
    } else if s.last().0 == ts {
        assert(t.drop_last() =~= s.drop_last());
        assert(t.last() == (ts, cents));
        assert(range_count(t, from, to) == range_count(s.drop_last(), from, to) + if in_range(
            ts,
            from,
            to,
        ) {
            1int
        } else {
            0int
        });
    } else {
        lemma_insert_count_monotone(s.drop_last(), ts, cents, from, to);
        assert(t.drop_last() =~= spec_insert(s.drop_last(), ts, cents));
        assert(t.last() == s.last());
        assert(range_count(t, from, to) == range_count(spec_insert(s.drop_last(), ts, cents), from, to)
            + if in_range(s.last().0, from, to) {
            1int
        } else {
            0int
        });
    }
}

/// Inserting keeps the entries sorted, provided every key is below `bound`
/// stays so.
pub proof fn lemma_insert_key_bound(s: Seq<(i64, u64)>, ts: i64, cents: u64, bound: i64)
    requires
        forall|i: int| 0 <= i < s.len() ==> (#[trigger] s[i]).0 < bound,
        ts < bound,
    ensures
        forall|i: int|
            0 <= i < spec_insert(s, ts, cents).len() ==> (#[trigger] spec_insert(s, ts, cents)[i]).0
                < bound,
    decreases s.len(),
{
    let t = spec_insert(s, ts, cents);
    if s.len() == 0 {
        assert forall|i: int| 0 <= i < t.len() implies (#[trigger] t[i]).0 < bound by {}
    } else if s.last().0 < ts {
        assert forall|i: int| 0 <= i < t.len() implies (#[trigger] t[i]).0 < bound by {
            if i < s.len() {
                assert(t[i] == s[i]);
            }
        }
    } else if s.last().0 == ts {
        assert forall|i: int| 0 <= i < t.len() implies (#[trigger] t[i]).0 < bound by {
            if i < s.len() - 1 {
                assert(t[i] == s[i]);
            }
        }
    } else {
        assert(forall|i: int|
            0 <= i < s.drop_last().len() ==> (#[trigger] s.drop_last()[i]).0 < bound);
        lemma_insert_key_bound(s.drop_last(), ts, cents, bound);
        let u = spec_insert(s.drop_last(), ts, cents);
        assert forall|i: int| 0 <= i < t.len() implies (#[trigger] t[i]).0 < bound by {
            if i < u.len() {
                assert(t[i] == u[i]);
            } else {
                assert(t[i] == s.last());
            }
        }
    }
}

/// Inserting keeps the entries sorted.
pub proof fn lemma_insert_sorted(s: Seq<(i64, u64)>, ts: i64, cents: u64)
    requires
        entries_sorted(s),
    ensures
        entries_sorted(spec_insert(s, ts, cents)),
    decreases s.len(),
{
    if s.len() == 0 {
    } else if s.last().0 < ts {
        let t = s.push((ts, cents));
        assert forall|i: int, j: int| 0 <= i < j < t.len() implies t[i].0 < t[j].0 by {
            if j < t.len() - 1 {
                assert(s[i].0 < s[j].0);
            } else if i < s.len() - 1 {
                assert(s[i].0 < s.last().0);
            }
        }
    } else if s.last().0 == ts {
        let t = s.update(s.len() - 1, (ts, cents));
        assert forall|i: int, j: int| 0 <= i < j < t.len() implies t[i].0 < t[j].0 by {
            assert(s[i].0 < s[j].0);
        }
    } else {
        assert(entries_sorted(s.drop_last()));
        lemma_insert_sorted(s.drop_last(), ts, cents);
        assert(forall|i: int|
            0 <= i < s.drop_last().len() ==> (#[trigger] s.drop_last()[i]).0 < s.last().0);
        lemma_insert_key_bound(s.drop_last(), ts, cents, s.last().0);
        let u = spec_insert(s.drop_last(), ts, cents);
        let t = u.push(s.last());
        assert forall|i: int, j: int| 0 <= i < j < t.len() implies t[i].0 < t[j].0 by {
            if j < t.len() - 1 {
                assert(u[i].0 < u[j].0);
            } else {
                assert(u[i].0 < s.last().0);
            }
        }
    }
}

/// Inserting the same entry twice leaves the ledger exactly as one insert
/// left it.
pub proof fn lemma_insert_idempotent(s: Seq<(i64, u64)>, ts: i64, cents: u64)
    ensures
        spec_insert(spec_insert(s, ts, cents), ts, cents) == spec_insert(s, ts, cents),
    decreases s.len(),
{
    if s.len() == 0 {
        let t = seq![(ts, cents)];
        assert(t.last().0 == ts);
        assert(spec_insert(t, ts, cents) =~= t.update(0, (ts, cents)));
        assert(t.update(0, (ts, cents)) =~= t);
    } else if s.last().0 < ts {
        let t = s.push((ts, cents));
        assert(t.last().0 == ts);
        assert(spec_insert(t, ts, cents) == t.update(t.len() - 1, (ts, cents)));
        assert(t.update(t.len() - 1, (ts, cents)) =~= t);
    } else if s.last().0 == ts {
        let t = s.update(s.len() - 1, (ts, cents));
        assert(t.last().0 == ts);
        assert(spec_insert(t, ts, cents) == t.update(t.len() - 1, (ts, cents)));
        assert(t.update(t.len() - 1, (ts, cents)) =~= t);
    } else {
        lemma_insert_idempotent(s.drop_last(), ts, cents);
        let u = spec_insert(s.drop_last(), ts, cents);
        let t = u.push(s.last());
        assert(t.last() == s.last());
        assert(t.last().0 > ts);
        assert(t.drop_last() =~= u);
    }
}

/// What a range scan counts is the number of stored timestamps that lie in
/// `[from, to]`: the count equals the length of the key sequence filtered
/// by membership in the range.  Keys are unique, so this is the size of
/// `{ts in the ledger : from <= ts <= to}`.
pub proof fn lemma_range_count_is_filter(s: Seq<(i64, u64)>, from: i64, to: i64)
    ensures
        range_count(s, from, to) == Seq::new(s.len(), |i: int| s[i].0).filter(
            |t: i64| in_range(t, from, to),
        ).len(),
    decreases s.len(),
{
    let keys = Seq::new(s.len(), |i: int| s[i].0);
    if s.len() == 0 {
        assert(keys =~= Seq::<i64>::empty());
        reveal_with_fuel(Seq::filter, 2);
    } else {
        lemma_range_count_is_filter(s.drop_last(), from, to);
        let keys_pre = Seq::new(s.drop_last().len(), |i: int| s.drop_last()[i].0);
        assert(keys.drop_last() =~= keys_pre);
        assert(keys.last() == s.last().0);
        keys.drop_last().lemma_filter_push(keys.last(), |t: i64| in_range(t, from, to));
        assert(keys.drop_last().push(keys.last()) =~= keys);
    }
}

/// With `from == to == k` a range scan sees exactly the entries whose
/// timestamp equals `k`.
pub proof fn lemma_range_point(s: Seq<(i64, u64)>, k: i64)
    ensures
        range_count(s, k, k) == Seq::new(s.len(), |i: int| s[i].0).filter(|t: i64| t == k).len(),
    decreases s.len(),
{
    let keys = Seq::new(s.len(), |i: int| s[i].0);
    if s.len() == 0 {
        assert(keys =~= Seq::<i64>::empty());
        reveal_with_fuel(Seq::filter, 2);
    } else {
        lemma_range_point(s.drop_last(), k);
        let keys_pre = Seq::new(s.drop_last().len(), |i: int| s.drop_last()[i].0);
        assert(keys.drop_last() =~= keys_pre);
        assert(keys.last() == s.last().0);
        keys.drop_last().lemma_filter_push(keys.last(), |t: i64| t == k);
        assert(keys.drop_last().push(keys.last()) =~= keys);
    }
}

/// A range that covers every stored timestamp counts the full history.
pub proof fn lemma_range_all(s: Seq<(i64, u64)>, from: i64, to: i64)
    requires
        forall|i: int| 0 <= i < s.len() ==> in_range((#[trigger] s[i]).0, from, to),
    ensures
        range_count(s, from, to) == s.len(),
    decreases s.len(),
{
    if s.len() > 0 {
        assert(forall|i: int|
            0 <= i < s.drop_last().len() ==> in_range((#[trigger] s.drop_last()[i]).0, from, to));
        lemma_range_all(s.drop_last(), from, to);
    }
}

/// An empty range — `from > to` — counts and sums nothing.
pub proof fn lemma_range_empty(s: Seq<(i64, u64)>, from: i64, to: i64)
    requires
        from > to,
    ensures
        range_count(s, from, to) == 0,
        range_total(s, from, to) == 0,
    decreases s.len(),
{
    if s.len() > 0 {
        lemma_range_empty(s.drop_last(), from, to);
    }
}

/// One upstream kind's ledger.
pub struct KindStore {
    entries: Vec<(i64, u64)>,
}

impl View for KindStore {
    type V = Seq<(i64, u64)>;

    closed spec fn view(&self) -> Seq<(i64, u64)> {
        self.entries@
    }
}

impl KindStore {
    pub open spec fn wf(&self) -> bool {
        entries_sorted(self@)
    }

    pub fn new() -> (r: KindStore)
        ensures
            r.wf(),
            r@ == Seq::<(i64, u64)>::empty(),
    {
        let r = KindStore { entries: Vec::new() };
        proof {
            assert(r@ =~= Seq::<(i64, u64)>::empty());
        }
        r
    }

    /// Records `cents` under `ts`; an entry already under `ts` is replaced.
    pub fn insert(&mut self, ts: i64, cents: u64)
        requires
            old(self).wf(),
        ensures
            final(self).wf(),
            final(self)@ == spec_insert(old(self)@, ts, cents),
    {
        let ghost s0 = self@;
        let mut i: usize = self.entries.len();
        while i > 0 && self.entries[i - 1].0 > ts
            invariant
                i <= self.entries@.len(),
                self@ == s0,
                entries_sorted(s0),
                forall|j: int| i <= j < s0.len() ==> (#[trigger] s0[j]).0 > ts,
            decreases i,
        {
            i = i - 1;
        }
        if i > 0 && self.entries[i - 1].0 == ts {
            self.entries.set(i - 1, (ts, cents));
            proof {
                lemma_spec_insert_at(s0, ts, cents, i as int);
                assert(self@ =~= spec_insert(s0, ts, cents));
                lemma_insert_sorted(s0, ts, cents);
            }
        } else {
            self.entries.insert(i, (ts, cents));
            proof {
                lemma_spec_insert_at(s0, ts, cents, i as int);
                assert(self@ =~= spec_insert(s0, ts, cents));
                lemma_insert_sorted(s0, ts, cents);
            }
        }
    }

    /// Counts and sums the entries with `from <= ts <= to`.
    pub fn range_stats(&self, from: i64, to: i64) -> (r: Count)
        ensures
            r.requests == range_count(self@, from, to),
            r.amount_cents == range_total(self@, from, to),
    {
        let s = &self.entries;
        let mut count: u64 = 0;
        let mut total: u128 = 0;
        let mut i: usize = 0;
        proof {
            assert(s@.subrange(0, 0) =~= Seq::<(i64, u64)>::empty());
        }
        while i < s.len()
            invariant
                i <= s@.len(),
                s@ == self@,
                count == range_count(s@.subrange(0, i as int), from, to),
                total == range_total(s@.subrange(0, i as int), from, to),
            decreases s@.len() - i,
        {
            let ghost pre = s@.subrange(0, i as int);
            let ghost cur = s@.subrange(0, i as int + 1);
            proof {
                assert(cur.drop_last() =~= pre);
                assert(cur.last() == s@[i as int]);
                lemma_range_count_bounds(pre, from, to);
                lemma_range_count_bounds(cur, from, to);
            }
            let (ts, cents) = s[i];
            if from <= ts && ts <= to {
                proof {
                    assert(range_count(cur, from, to) <= cur.len());
                    assert(cur.len() <= u64::MAX) by {
                        assert(cur.len() <= s@.len());
                    }
                    assert(range_total(cur, from, to) <= cur.len() * (u64::MAX as int));
                    assert(cur.len() * (u64::MAX as int) <= (u64::MAX as int) * (
                    u64::MAX as int)) by (nonlinear_arith)
                        requires
                            cur.len() <= u64::MAX as int,
                    ;
                    assert((u64::MAX as int) * (u64::MAX as int) < u128::MAX as int);
                }
                count = count + 1;
                total = total + cents as u128;
            }
            i = i + 1;
        }
        proof {
            assert(s@.subrange(0, s@.len() as int) =~= s@);
        }
        Count { requests: count, amount_cents: total }
    }
}

/// Where an entry for `ts` goes when every later entry has a greater key:
/// the position `at` found by scanning back over greater keys.
proof fn lemma_spec_insert_at(s: Seq<(i64, u64)>, ts: i64, cents: u64, at: int)
    requires
        entries_sorted(s),
        0 <= at <= s.len(),
        forall|j: int| at <= j < s.len() ==> (#[trigger] s[j]).0 > ts,
        at > 0 ==> s[at - 1].0 <= ts,
    ensures
        spec_insert(s, ts, cents) == if at > 0 && s[at - 1].0 == ts {
            s.update(at - 1, (ts, cents))
        } else {
            s.subrange(0, at).push((ts, cents)) + s.subrange(at, s.len() as int)
        },
    decreases s.len(),
{
    if s.len() == 0 {
        assert(spec_insert(s, ts, cents) =~= s.subrange(0, 0).push((ts, cents)) + s.subrange(
            0,
            0,
        ));
    } else if at == s.len() {
        if s.last().0 == ts {
            assert(spec_insert(s, ts, cents) == s.update(s.len() - 1, (ts, cents)));
        } else {
            assert(s.last().0 < ts);
            assert(spec_insert(s, ts, cents) =~= s.subrange(0, at).push((ts, cents)) + s.subrange(
                at,
                s.len() as int,
            ));
        }
    } else {
        assert(s.last().0 > ts);
        assert(entries_sorted(s.drop_last()));
        assert(forall|j: int|
            at <= j < s.drop_last().len() ==> (#[trigger] s.drop_last()[j]).0 > ts);
        lemma_spec_insert_at(s.drop_last(), ts, cents, at);
        let u = spec_insert(s.drop_last(), ts, cents);
        if at > 0 && s[at - 1].0 == ts {
            assert(s.drop_last()[at - 1].0 == ts);
            assert(u == s.drop_last().update(at - 1, (ts, cents)));
            assert(u.push(s.last()) =~= s.update(at - 1, (ts, cents)));
        } else {
            assert(u == s.drop_last().subrange(0, at).push((ts, cents)) + s.drop_last().subrange(
                at,
                s.drop_last().len() as int,
            ));
            assert(s.drop_last().subrange(0, at) =~= s.subrange(0, at));
            assert(u.push(s.last()) =~= s.subrange(0, at).push((ts, cents)) + s.subrange(
                at,
                s.len() as int,
            ));
        }
    }
}

/// The full ledger: one [`KindStore`] per upstream kind.  A payment appears
/// in at most one of the two, the one whose upstream confirmed it.
pub struct Store {
    pub default_store: KindStore,
    pub fallback_store: KindStore,
}

impl Store {
    pub open spec fn wf(&self) -> bool {
        self.default_store.wf() && self.fallback_store.wf()
    }

    pub open spec fn of_kind(&self, kind: UpstreamType) -> Seq<(i64, u64)> {
        match kind {
            UpstreamType::Default => self.default_store@,
            UpstreamType::Fallback => self.fallback_store@,
        }
    }

    /// Records a confirmed payment under the kind that confirmed it; the
    /// other kind's ledger stands untouched.
    pub fn insert(&mut self, kind: UpstreamType, ts: i64, cents: u64)
        requires
            old(self).wf(),
        ensures
            final(self).wf(),
            final(self).of_kind(kind) == spec_insert(old(self).of_kind(kind), ts, cents),
            forall|k: UpstreamType|
                k != kind ==> final(self).of_kind(k) == old(self).of_kind(k),
    {
        match kind {
            UpstreamType::Default => self.default_store.insert(ts, cents),
            UpstreamType::Fallback => self.fallback_store.insert(ts, cents),
        }
    }

    /// The two-bucket summary over `[from, to]`: per kind, how many entries
    /// the range holds and their summed amount.
    pub fn summary(&self, from: i64, to: i64) -> (r: TargetCounter)
        ensures
            r.default.requests == range_count(self.default_store@, from, to),
            r.default.amount_cents == range_total(self.default_store@, from, to),
            r.fallback.requests == range_count(self.fallback_store@, from, to),
            r.fallback.amount_cents == range_total(self.fallback_store@, from, to),
    {
        TargetCounter {
            default: self.default_store.range_stats(from, to),
            fallback: self.fallback_store.range_stats(from, to),
        }
    }
}

/// A fresh, empty ledger pair.
pub fn bootstrap() -> (r: Store)
    ensures
        r.wf(),
        r.default_store@ == Seq::<(i64, u64)>::empty(),
        r.fallback_store@ == Seq::<(i64, u64)>::empty(),
{
    Store { default_store: KindStore::new(), fallback_store: KindStore::new() }
}

} // verus!
