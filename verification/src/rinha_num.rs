//! Decimal text: rendering and reading the numbers the wire format carries.
//!
//! Request counts are plain decimal integers; amounts are fixed-point decimal
//! text (`units.fraction`) for an integer count of cents.

use vstd::prelude::*;

verus! {

/// ASCII decimal digit.
pub open spec fn is_digit(b: u8) -> bool {
    48 <= b <= 57
}

/// Decimal rendering of `n`, most significant digit first, no sign, no
/// leading zeroes.
pub open spec fn dec_digits(n: nat) -> Seq<u8>
    decreases n,
{
    if n < 10 {
        seq![(48 + n) as u8]
    } else {
        dec_digits(n / 10).push((48 + n % 10) as u8)
    }
}

/// Fixed-point rendering of an amount of `cents`: whole units, a dot, and
/// exactly two fractional digits.
pub open spec fn dec_amount(cents: nat) -> Seq<u8> {
    dec_digits(cents / 100) + seq![46u8, (48 + (cents % 100) / 10) as u8, (48 + cents % 10) as u8]
}

/// Numeric value of a run of decimal digits.
pub open spec fn digits_val(s: Seq<u8>) -> int
    decreases s.len(),
{
    if s.len() == 0 {
        0
    } else {
        digits_val(s.drop_last()) * 10 + (s.last() - 48)
    }
}

/// First position at or after `from` holding `target`, or the length of `s`.
pub open spec fn scan_until_spec(s: Seq<u8>, from: int, target: u8) -> int
    decreases s.len() - from,
{
    if from < 0 || from >= s.len() {
        s.len() as int
    } else if s[from] == target {
        from
    } else {
        scan_until_spec(s, from + 1, target)
    }
}

/// Where the run of decimal digits starting at `from` ends.
pub open spec fn digit_run_end(s: Seq<u8>, from: int) -> int
    decreases s.len() - from,
{
    if from < 0 || from >= s.len() || !is_digit(s[from]) {
        from
    } else {
        digit_run_end(s, from + 1)
    }
}

pub proof fn lemma_scan_until(s: Seq<u8>, from: int, j: int, target: u8)
    requires
        0 <= from <= j <= s.len(),
        forall|k: int| from <= k < j ==> s[k] != target,
        j == s.len() || s[j] == target,
    ensures
        scan_until_spec(s, from, target) == j,
    decreases j - from,
{
    if from < j {
        assert(s[from] != target);
        lemma_scan_until(s, from + 1, j, target);
    }
}

/// A scan never moves backward nor past the end.
pub proof fn lemma_scan_until_ge(s: Seq<u8>, from: int, target: u8)
    requires
        0 <= from <= s.len(),
    ensures
        from <= scan_until_spec(s, from, target) <= s.len(),
    decreases s.len() - from,
{
    if from < s.len() && s[from] != target {
        lemma_scan_until_ge(s, from + 1, target);
    }
}

pub proof fn lemma_digit_run_end(s: Seq<u8>, from: int, j: int)
    requires
        0 <= from <= j <= s.len(),
        forall|k: int| from <= k < j ==> is_digit(#[trigger] s[k]),
        j == s.len() || !is_digit(s[j]),
    ensures
        digit_run_end(s, from) == j,
    decreases j - from,
{
    if from < j {
        assert(is_digit(s[from]));
        lemma_digit_run_end(s, from + 1, j);
    }
}

/// The rendering of `n` is a non-empty run of digits.
pub proof fn lemma_dec_digits_digits(n: nat)
    ensures
        dec_digits(n).len() >= 1,
        forall|i: int| 0 <= i < dec_digits(n).len() ==> is_digit(#[trigger] dec_digits(n)[i]),
    decreases n,
{
    if n >= 10 {
        lemma_dec_digits_digits(n / 10);
    }
}

/// Reading the rendering of `n` gives back `n`.
pub proof fn lemma_dec_digits_val(n: nat)
    ensures
        digits_val(dec_digits(n)) == n,
    decreases n,
{
    if n < 10 {
        let s = dec_digits(n);
        assert(s.drop_last() =~= Seq::<u8>::empty());
        assert(digits_val(s.drop_last()) == 0);
        assert(s.last() == (48 + n) as u8);
        assert(digits_val(s) == 0 * 10 + ((48 + n) as u8 - 48));
    } else {
        lemma_dec_digits_val(n / 10);
        let x = dec_digits(n / 10);
        let d = (48 + n % 10) as u8;
        assert(x.push(d).drop_last() =~= x);
        assert(x.push(d).last() == d);
    }
}

/// A run of digits denotes a value that is not negative.
pub proof fn lemma_digits_val_nonneg(s: Seq<u8>)
    requires
        forall|i: int| 0 <= i < s.len() ==> is_digit(#[trigger] s[i]),
    ensures
        digits_val(s) >= 0,
    decreases s.len(),
{
    if s.len() > 0 {
        assert(forall|i: int|
            0 <= i < s.drop_last().len() ==> is_digit(#[trigger] s.drop_last()[i]));
        lemma_digits_val_nonneg(s.drop_last());
    }
}

/// Where the rendering of `n` stands in `s` followed by a non-digit (or the
/// end), the digit run read from its start is exactly that rendering.
pub proof fn lemma_digit_run_of_dec(s: Seq<u8>, from: int, n: nat)
    requires
        0 <= from,
        from + dec_digits(n).len() <= s.len(),
        s.subrange(from, from + dec_digits(n).len() as int) == dec_digits(n),
        from + dec_digits(n).len() == s.len() || !is_digit(
            s[from + dec_digits(n).len() as int],
        ),
    ensures
        digit_run_end(s, from) == from + dec_digits(n).len(),
        digits_val(s.subrange(from, from + dec_digits(n).len() as int)) == n,
{
    let j = from + dec_digits(n).len() as int;
    lemma_dec_digits_digits(n);
    assert forall|k: int| from <= k < j implies is_digit(#[trigger] s[k]) by {
        assert(s[k] == dec_digits(n)[k - from]);
    }
    lemma_digit_run_end(s, from, j);
    lemma_dec_digits_val(n);
}

/// Where the fixed-point rendering of `cents` stands in `s` followed by a
/// byte that is neither a digit nor a dot (or by the end), the amount read
/// from its start is exactly `cents`.
pub proof fn lemma_parse_amount_of_dec(s: Seq<u8>, from: int, cents: u64)
    requires
        0 <= from,
        from + dec_amount(cents as nat).len() <= s.len(),
        s.subrange(from, from + dec_amount(cents as nat).len() as int) == dec_amount(
            cents as nat,
        ),
        from + dec_amount(cents as nat).len() == s.len() || (!is_digit(
            s[from + dec_amount(cents as nat).len() as int],
        ) && s[from + dec_amount(cents as nat).len() as int] != 46),
    ensures
        amount_end(s, from) == from + dec_amount(cents as nat).len(),
        parse_amount_at(s, from) == Some(cents),
{
    let c = cents as nat;
    let du = dec_digits(c / 100);
    let ul = du.len() as int;
    let d1 = (48 + (c % 100) / 10) as u8;
    let d2 = (48 + c % 10) as u8;
    let end = from + dec_amount(c).len() as int;
    lemma_dec_digits_digits(c / 100);
    assert(dec_amount(c).len() == ul + 3);
    assert forall|i: int| 0 <= i < dec_amount(c).len() implies s[from + i] == dec_amount(
        c,
    )[i] by {
        assert(s.subrange(from, end)[i] == s[from + i]);
    }
    assert(dec_amount(c)[ul] == seq![46u8, d1, d2][0]);
    assert(dec_amount(c)[ul + 1] == seq![46u8, d1, d2][1]);
    assert(dec_amount(c)[ul + 2] == seq![46u8, d1, d2][2]);
    assert(s.subrange(from, from + ul) =~= du);
    assert(s[from + ul] == dec_amount(c)[ul]);
    assert(s[from + ul] == 46);
    lemma_digit_run_of_dec(s, from, c / 100);
    let j = from + ul;
    assert(digit_run_end(s, from) == j);
    assert(j > from);
    assert(s[j + 1] == d1 && s[j + 2] == d2);
    assert(is_digit(d1) && is_digit(d2));
    assert forall|k: int| j + 1 <= k < j + 3 implies is_digit(#[trigger] s[k]) by {}
    lemma_digit_run_end(s, j + 1, j + 3);
    let frac_seq = s.subrange(j + 1, j + 3);
    assert(frac_seq =~= seq![d1, d2]);
    assert(frac_seq.drop_last() =~= seq![d1]);
    assert(seq![d1].drop_last() =~= Seq::<u8>::empty());
    assert(digits_val(Seq::<u8>::empty()) == 0);
    assert(seq![d1].last() == d1);
    assert(frac_seq.last() == d2);
    assert(digits_val(seq![d1]) == d1 - 48);
    assert(digits_val(frac_seq) == (d1 - 48) * 10 + (d2 - 48));
    assert(digits_val(frac_seq) == c % 100) by {
        assert(d1 - 48 == (c % 100) / 10);
        assert(d2 - 48 == c % 10);
        assert(c % 10 == (c % 100) % 10) by (nonlinear_arith);
        assert(((c % 100) / 10) * 10 + (c % 100) % 10 == c % 100) by (nonlinear_arith);
    }
    assert(digits_val(s.subrange(from, j)) * 100 + digits_val(frac_seq) == (c / 100) * 100 + c
        % 100);
    assert((c / 100) * 100 + c % 100 == c) by (nonlinear_arith);
}

/// Appends the decimal rendering of `n`.
pub fn push_dec(out: &mut Vec<u8>, n: u128)
    ensures
        final(out)@ == old(out)@ + dec_digits(n as nat),
    decreases n,
{
    if n < 10 {
        out.push(48 + n as u8);
        proof {
            assert(out@ =~= old(out)@ + dec_digits(n as nat));
        }
    } else {
        push_dec(out, n / 10);
        out.push(48 + (n % 10) as u8);
        proof {
            assert(out@ =~= old(out)@ + dec_digits(n as nat));
        }
    }
}

/// Appends the fixed-point rendering of an amount of `cents`.
pub fn push_amount(out: &mut Vec<u8>, cents: u128)
    ensures
        final(out)@ == old(out)@ + dec_amount(cents as nat),
{
    push_dec(out, cents / 100);
    out.push(46);
    out.push(48 + ((cents % 100) / 10) as u8);
    out.push(48 + (cents % 10) as u8);
    proof {
        assert(out@ =~= old(out)@ + dec_amount(cents as nat));
    }
}

/// Runs to the first `target` byte at or after `from`, or to the end.
pub fn scan_until(s: &[u8], from: usize, target: u8) -> (r: usize)
    requires
        from <= s@.len(),
    ensures
        r == scan_until_spec(s@, from as int, target),
        from <= r <= s@.len(),
        forall|k: int| from <= k < r ==> s@[k] != target,
        r < s@.len() ==> s@[r as int] == target,
{
    let mut i: usize = from;
    while i < s.len()
        invariant
            from <= i <= s@.len(),
            forall|k: int| from <= k < i ==> s@[k] != target,
        decreases s@.len() - i,
    {
        if s[i] == target {
            proof {
                lemma_scan_until(s@, from as int, i as int, target);
            }
            return i;
        }
        i = i + 1;
    }
    proof {
        lemma_scan_until(s@, from as int, i as int, target);
    }
    i
}

/// The value the digit run starting at `from` denotes, where the run is
/// non-empty and the value fits a `u64`.
pub open spec fn parse_u64_at(s: Seq<u8>, from: int) -> Option<u64> {
    let end = digit_run_end(s, from);
    let v = digits_val(s.subrange(from, end));
    if end > from && v <= u64::MAX {
        Some(v as u64)
    } else {
        None
    }
}

/// Reads the run of decimal digits starting at `from`: its value, where it is
/// non-empty and fits a `u64`, and where it ends.
pub fn parse_digits_u64(s: &[u8], from: usize) -> (r: (Option<u64>, usize))
    requires
        from <= s@.len(),
    ensures
        r.1 == digit_run_end(s@, from as int),
        from <= r.1 <= s@.len(),
        r.0 == parse_u64_at(s@, from as int),
        forall|k: int| from <= k < r.1 ==> is_digit(#[trigger] s@[k]),
{
    let mut i: usize = from;
    let mut val: u64 = 0;
    let mut over: bool = false;
    while i < s.len() && 48 <= s[i] && s[i] <= 57
        invariant
            from <= i <= s@.len(),
            forall|k: int| from <= k < i ==> is_digit(#[trigger] s@[k]),
            over == (digits_val(s@.subrange(from as int, i as int)) > u64::MAX),
            !over ==> val == digits_val(s@.subrange(from as int, i as int)),
        decreases s@.len() - i,
    {
        let d: u8 = s[i] - 48;
        let ghost pre = s@.subrange(from as int, i as int);
        let ghost cur = s@.subrange(from as int, i as int + 1);
        proof {
            assert(cur.drop_last() =~= pre);
            assert(cur.last() == s@[i as int]);
        }
        if !over {
            if val <= (u64::MAX - d as u64) / 10 {
                assert(val * 10 + d <= u64::MAX) by {
                    assert(val <= (u64::MAX - d) / 10);
                    assert(val * 10 <= u64::MAX - d) by (nonlinear_arith)
                        requires
                            val <= (u64::MAX - d) / 10,
                            0 <= d <= 9,
                    ;
                }
                val = val * 10 + d as u64;
            } else {
                proof {
                    assert(val * 10 + d > u64::MAX) by (nonlinear_arith)
                        requires
                            val > (u64::MAX - d) / 10,
                            0 <= d <= 9,
                    ;
                }
                over = true;
            }
        } else {
            proof {
                assert(digits_val(pre) * 10 + d > u64::MAX) by (nonlinear_arith)
                    requires
                        digits_val(pre) > u64::MAX,
                        0 <= d,
                ;
            }
        }
        i = i + 1;
    }
    proof {
        lemma_digit_run_end(s@, from as int, i as int);
    }
    if i == from || over {
        (None, i)
    } else {
        (Some(val), i)
    }
}

/// Where the amount text starting at `from` ends: a run of digits, and, where
/// a dot follows a non-empty run, a second run of fractional digits.
pub open spec fn amount_end(s: Seq<u8>, from: int) -> int {
    let j = digit_run_end(s, from);
    if j > from && j < s.len() && s[j] == 46 {
        digit_run_end(s, j + 1)
    } else {
        j
    }
}

/// The amount, in cents, that the text starting at `from` denotes: a
/// non-empty run of whole-unit digits, optionally a dot and one or two
/// fractional digits, the whole fitting a `u64` of cents.
pub open spec fn parse_amount_at(s: Seq<u8>, from: int) -> Option<u64> {
    let j = digit_run_end(s, from);
    if j == from {
        None
    } else {
        let units = digits_val(s.subrange(from, j));
        if j < s.len() && s[j] == 46 {
            let k = digit_run_end(s, j + 1);
            let fl = k - j - 1;
            if fl < 1 || fl > 2 {
                None
            } else {
                let frac = digits_val(s.subrange(j + 1, k));
                let cents = units * 100 + (if fl == 1 {
                    frac * 10
                } else {
                    frac
                });
                if cents <= u64::MAX {
                    Some(cents as u64)
                } else {
                    None
                }
            }
        } else {
            let cents = units * 100;
            if cents <= u64::MAX {
                Some(cents as u64)
            } else {
                None
            }
        }
    }
}

/// Reads the amount text starting at `from`: its value in cents, where it is
/// well formed and fits, and where it ends.
pub fn parse_amount(s: &[u8], from: usize) -> (r: (Option<u64>, usize))
    requires
        from <= s@.len(),
    ensures
        r.1 == amount_end(s@, from as int),
        from <= r.1 <= s@.len(),
        r.0 == parse_amount_at(s@, from as int),
{
    let (units_opt, j) = parse_digits_u64(s, from);
    if j == from {
        return (None, j);
    }
    if j < s.len() && s[j] == 46 {
        let (frac_opt, k) = parse_digits_u64(s, j + 1);
        let fl = k - j - 1;
        if fl < 1 || fl > 2 {
            return (None, k);
        }
        let ghost units_v = digits_val(s@.subrange(from as int, j as int));
        let ghost frac_v = digits_val(s@.subrange(j as int + 1, k as int));
        let ghost cents_v = units_v * 100 + (if fl == 1 {
            frac_v * 10
        } else {
            frac_v
        });
        proof {
            lemma_digits_val_nonneg(s@.subrange(from as int, j as int));
            lemma_digits_val_nonneg(s@.subrange(j as int + 1, k as int));
            assert(units_v >= 0 && frac_v >= 0);
        }
        let units = match units_opt {
            Some(u) => u,
            None => {
                proof {
                    assert(cents_v > u64::MAX) by (nonlinear_arith)
                        requires
                            units_v > u64::MAX,
                            frac_v >= 0,
                            cents_v == units_v * 100 + (if fl == 1 {
                                frac_v * 10
                            } else {
                                frac_v
                            }),
                            1 <= fl <= 2,
                    ;
                }
                return (None, k);
            },
        };
        let frac = match frac_opt {
            Some(f) => f,
            None => {
                proof {
                    assert(cents_v > u64::MAX) by (nonlinear_arith)
                        requires
                            frac_v > u64::MAX,
                            units_v >= 0,
                            cents_v == units_v * 100 + (if fl == 1 {
                                frac_v * 10
                            } else {
                                frac_v
                            }),
                            1 <= fl <= 2,
                    ;
                }
                return (None, k);
            },
        };
        let scaled_frac = if fl == 1 {
            match frac.checked_mul(10) {
                Some(f10) => f10,
                None => {
                    proof {
                        assert(cents_v > u64::MAX) by (nonlinear_arith)
                            requires
                                frac_v * 10 > u64::MAX,
                                units_v >= 0,
                                cents_v == units_v * 100 + frac_v * 10,
                        ;
                    }
                    return (None, k);
                },
            }
        } else {
            frac
        };
        let scaled_units = match units.checked_mul(100) {
            Some(u100) => u100,
            None => {
                proof {
                    assert(cents_v > u64::MAX) by (nonlinear_arith)
                        requires
                            units_v * 100 > u64::MAX,
                            cents_v == units_v * 100 + (if fl == 1 {
                                frac_v * 10
                            } else {
                                frac_v
                            }),
                            frac_v >= 0,
                            1 <= fl <= 2,
                    ;
                }
                return (None, k);
            },
        };
        match scaled_units.checked_add(scaled_frac) {
            Some(cents) => {
                proof {
                    assert(cents == cents_v);
                    assert(parse_amount_at(s@, from as int) == Some(cents));
                }
                (Some(cents), k)
            },
            None => {
                proof {
                    assert(cents_v > u64::MAX);
                    assert(parse_amount_at(s@, from as int) == None::<u64>);
                }
                (None, k)
            },
        }
    } else {
        proof {
            lemma_digits_val_nonneg(s@.subrange(from as int, j as int));
        }
        let units = match units_opt {
            Some(u) => u,
            None => {
                proof {
                    assert(digits_val(s@.subrange(from as int, j as int)) * 100 > u64::MAX)
                        by (nonlinear_arith)
                        requires
                            digits_val(s@.subrange(from as int, j as int)) > u64::MAX,
                    ;
                }
                return (None, j);
            },
        };
        match units.checked_mul(100) {
            Some(cents) => {
                proof {
                    assert(cents == digits_val(s@.subrange(from as int, j as int)) * 100);
                    assert(parse_amount_at(s@, from as int) == Some(cents));
                }
                (Some(cents), j)
            },
            None => {
                proof {
                    assert(parse_amount_at(s@, from as int) == None::<u64>);
                }
                (None, j)
            },
        }
    }
}

} // verus!
