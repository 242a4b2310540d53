//! The gateway's data model.
//!
//! Amounts are fixed-point: an integer count of cents.  Timestamps are
//! nanoseconds since the Unix epoch.  A correlation id is kept exactly as the
//! client sent it: a canonical textual UUID, opaque to the gateway.

use vstd::prelude::*;

verus! {

/// Byte length of a canonical textual UUID.
pub const UUID_LEN: usize = 36;

/// ASCII hexadecimal digit (both cases).
pub open spec fn is_hex_digit(b: u8) -> bool {
    (48 <= b <= 57) || (65 <= b <= 70) || (97 <= b <= 102)
}

/// What byte a canonical textual UUID holds at position `i`:
/// a hyphen at 8, 13, 18 and 23, a hexadecimal digit everywhere else.
pub open spec fn uuid_byte_ok(s: Seq<u8>, i: int) -> bool {
    if i == 8 || i == 13 || i == 18 || i == 23 {
        s[i] == 45
    } else {
        is_hex_digit(s[i])
    }
}

/// `s` is a canonical textual UUID, such as
/// `00000000-0000-0000-0000-000000000001`.
pub open spec fn is_uuid_seq(s: Seq<u8>) -> bool {
    &&& s.len() == UUID_LEN
    &&& forall|i: int| 0 <= i < s.len() ==> #[trigger] uuid_byte_ok(s, i)
}

fn is_hex_digit_byte(b: u8) -> (r: bool)
    ensures
        r == is_hex_digit(b),
{
    (48 <= b && b <= 57) || (65 <= b && b <= 70) || (97 <= b && b <= 102)
}

/// Whether `s` is a canonical textual UUID.
pub fn is_uuid(s: &[u8]) -> (r: bool)
    ensures
        r == is_uuid_seq(s@),
{
    if s.len() != UUID_LEN {
        return false;
    }
    let mut i: usize = 0;
    while i < s.len()
        invariant
            s@.len() == UUID_LEN,
            i <= s@.len(),
            forall|j: int| 0 <= j < i ==> #[trigger] uuid_byte_ok(s@, j),
        decreases s@.len() - i,
    {
        let b = s[i];
        let ok = if i == 8 || i == 13 || i == 18 || i == 23 {
            b == 45
        } else {
            is_hex_digit_byte(b)
        };
        if !ok {
            proof {
                assert(!uuid_byte_ok(s@, i as int));
            }
            return false;
        }
        i = i + 1;
    }
    true
}

/// A payment submission.  Payments are value objects: never mutated after
/// creation.
#[derive(Debug)]
pub struct Payment {
    /// Canonical textual UUID, opaque to the gateway.
    pub correlation_id: Vec<u8>,
    /// Amount in cents.
    pub amount_cents: u64,
    /// Nanoseconds since the Unix epoch.
    pub requested_at: i64,
}

/// Mathematical image of a [`Payment`].
pub ghost struct PaymentModel {
    pub correlation_id: Seq<u8>,
    pub amount_cents: u64,
    pub requested_at: i64,
}

impl View for Payment {
    type V = PaymentModel;

    open spec fn view(&self) -> PaymentModel {
        PaymentModel {
            correlation_id: self.correlation_id@,
            amount_cents: self.amount_cents,
            requested_at: self.requested_at,
        }
    }
}

impl Payment {
    /// A well-formed payment carries a canonical textual UUID.
    pub open spec fn wf(&self) -> bool {
        is_uuid_seq(self.correlation_id@)
    }
}

impl Clone for Payment {
    fn clone(&self) -> (r: Self)
        ensures
            r@ == self@,
    {
        Payment {
            correlation_id: clone_bytes(&self.correlation_id),
            amount_cents: self.amount_cents,
            requested_at: self.requested_at,
        }
    }
}

impl PartialEq for Payment {
    fn eq(&self, other: &Self) -> (r: bool) {
        bytes_eq(self.correlation_id.as_slice(), other.correlation_id.as_slice())
            && self.amount_cents == other.amount_cents
            && self.requested_at == other.requested_at
    }
}

impl vstd::std_specs::cmp::PartialEqSpecImpl for Payment {
    open spec fn obeys_eq_spec() -> bool {
        true
    }

    open spec fn eq_spec(&self, other: &Self) -> bool {
        self@ == other@
    }
}

/// Byte-for-byte copy of `v`.
pub fn clone_bytes(v: &Vec<u8>) -> (r: Vec<u8>)
    ensures
        r@ == v@,
{
    let mut out: Vec<u8> = Vec::new();
    let mut i: usize = 0;
    while i < v.len()
        invariant
            i <= v@.len(),
            out@ == v@.subrange(0, i as int),
        decreases v@.len() - i,
    {
        out.push(v[i]);
        i = i + 1;
        proof {
            assert(out@ =~= v@.subrange(0, i as int));
        }
    }
    proof {
        assert(out@ =~= v@);
    }
    out
}

/// Whether two byte strings hold the same bytes.
pub fn bytes_eq(a: &[u8], b: &[u8]) -> (r: bool)
    ensures
        r == (a@ == b@),
{
    if a.len() != b.len() {
        proof {
            assert(a@.len() != b@.len());
        }
        return false;
    }
    let mut i: usize = 0;
    while i < a.len()
        invariant
            a@.len() == b@.len(),
            i <= a@.len(),
            forall|j: int| 0 <= j < i ==> a@[j] == b@[j],
        decreases a@.len() - i,
    {
        if a[i] != b[i] {
            return false;
        }
        i = i + 1;
    }
    proof {
        assert(a@ =~= b@);
    }
    true
}

/// Per-upstream aggregate over a time range.
#[derive(Clone, Copy, PartialEq, Eq, Structural, Debug)]
pub struct Count {
    /// How many payments the range holds.
    pub requests: u64,
    /// Their summed amount, in cents.
    pub amount_cents: u128,
}

/// The two-bucket summary the gateway serves.
#[derive(Clone, Copy, PartialEq, Eq, Structural, Debug)]
pub struct TargetCounter {
    pub default: Count,
    pub fallback: Count,
}

/// Body of an upstream's health probe answer.
#[derive(Clone, Copy, PartialEq, Eq, Structural, Debug)]
pub struct Health {
    pub failing: bool,
}

} // verus!
