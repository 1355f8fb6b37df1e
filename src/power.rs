//! Arbitrary-precision voting power.
use vstd::prelude::*;

use crate::text::{all_hex_digits, hex_digit, hex_digit_value, is_hex_digit};

verus! {

/// 16 to the power `n`.
pub open spec fn pow16(n: nat) -> nat
    decreases n,
{
    if n == 0 {
        1
    } else {
        16 * pow16((n - 1) as nat)
    }
}

/// The number written by little-endian base-16 digits.
pub open spec fn digits_value(ds: Seq<u8>) -> nat
    decreases ds.len(),
{
    if ds.len() == 0 {
        0
    } else {
        ds[0] as nat + 16 * digits_value(ds.drop_first())
    }
}

/// Every digit is below 16 and the most significant one is not zero.
pub open spec fn digits_canonical(ds: Seq<u8>) -> bool {
    &&& forall|i: int| 0 <= i < ds.len() ==> #[trigger] ds[i] < 16
    &&& (ds.len() > 0 ==> ds.last() != 0)
}

proof fn lemma_pow16_positive(n: nat)
    ensures
        pow16(n) >= 1,
    decreases n,
{
    if n > 0 {
        lemma_pow16_positive((n - 1) as nat);
    }
}

proof fn lemma_pow16_monotonic(m: nat, n: nat)
    requires
        m <= n,
    ensures
        pow16(m) <= pow16(n),
    decreases n,
{
    if m < n {
        lemma_pow16_monotonic(m, (n - 1) as nat);
        lemma_pow16_positive((n - 1) as nat);
    }
}

/// Appending a most significant digit adds it at its place value.
proof fn lemma_value_push(ds: Seq<u8>, d: u8)
    ensures
        digits_value(ds.push(d)) == digits_value(ds) + pow16(ds.len()) * d,
    decreases ds.len(),
{
    if ds.len() == 0 {
        assert(ds.push(d).drop_first() =~= Seq::<u8>::empty());
        assert(digits_value(Seq::<u8>::empty()) == 0);
        assert(digits_value(ds.push(d)) == d + 16 * digits_value(ds.push(d).drop_first()));
        assert(pow16(0) == 1);
    } else {
        let rest = ds.drop_first();
        assert(ds.push(d).drop_first() =~= rest.push(d));
        assert(ds.push(d)[0] == ds[0]);
        assert(pow16(ds.len()) == 16 * pow16(rest.len()));
        lemma_value_push(rest, d);
        let p = pow16(rest.len());
        assert(16 * (digits_value(rest) + p * d) == 16 * digits_value(rest) + (16 * p) * d)
            by (nonlinear_arith);
    }
}

/// A number of `n` digits is below `16^n`.
proof fn lemma_value_bound(ds: Seq<u8>)
    requires
        forall|i: int| 0 <= i < ds.len() ==> #[trigger] ds[i] < 16,
    ensures
        digits_value(ds) < pow16(ds.len()),
    decreases ds.len(),
{
    if ds.len() > 0 {
        let rest = ds.drop_first();
        assert forall|i: int| 0 <= i < rest.len() implies #[trigger] rest[i] < 16 by {
            assert(rest[i] == ds[i + 1]);
        }
        lemma_value_bound(rest);
        assert(ds[0] < 16);
    }
}

/// The digits below position `k` and those from `k` on make up the number.
proof fn lemma_value_split(ds: Seq<u8>, k: int)
    requires
        0 <= k <= ds.len(),
    ensures
        digits_value(ds) == digits_value(ds.subrange(0, k)) + pow16(k as nat) * digits_value(
            ds.subrange(k, ds.len() as int),
        ),
    decreases k,
{
    if k == 0 {
        assert(ds.subrange(0, 0) =~= Seq::<u8>::empty());
        assert(digits_value(ds.subrange(0, 0)) == 0);
        assert(ds.subrange(0, ds.len() as int) =~= ds);
        assert(pow16(k as nat) == 1);
        assert(1 * digits_value(ds) == digits_value(ds));
    } else {
        let rest = ds.drop_first();
        lemma_value_split(rest, k - 1);
        let low = ds.subrange(0, k);
        assert(low.drop_first() =~= rest.subrange(0, k - 1));
        assert(low[0] == ds[0]);
        assert(digits_value(low) == ds[0] as nat + 16 * digits_value(low.drop_first()));
        assert(ds.subrange(k, ds.len() as int) =~= rest.subrange(k - 1, rest.len() as int));
        let lo = digits_value(rest.subrange(0, k - 1));
        let hi = digits_value(rest.subrange(k - 1, rest.len() as int));
        let p = pow16((k - 1) as nat);
        assert(16 * (lo + p * hi) == 16 * lo + (16 * p) * hi) by (nonlinear_arith);
        assert(pow16(k as nat) == 16 * p);
        assert(digits_value(ds) == ds[0] as nat + 16 * digits_value(rest));
        assert(pow16(k as nat) * hi == (16 * p) * hi);
        assert(digits_value(ds) == digits_value(low) + pow16(k as nat) * hi);
        assert(digits_value(ds.subrange(k, ds.len() as int)) == hi);
    }
}

/// Dropping a zero most significant digit keeps the number.
proof fn lemma_value_drop_zero(ds: Seq<u8>)
    requires
        ds.len() > 0,
        ds.last() == 0,
    ensures
        digits_value(ds.drop_last()) == digits_value(ds),
{
    lemma_value_push(ds.drop_last(), 0);
    assert(ds.drop_last().push(0) =~= ds);
}

/// A canonical number of `n > 0` digits is at least `16^(n-1)`.
proof fn lemma_value_lower_bound(ds: Seq<u8>)
    requires
        digits_canonical(ds),
        ds.len() > 0,
    ensures
        digits_value(ds) >= pow16((ds.len() - 1) as nat),
{
    let init = ds.drop_last();
    lemma_value_push(init, ds.last());
    assert(init.push(ds.last()) =~= ds);
    let p = pow16(init.len());
    assert(p * (ds.last() as nat) >= p) by (nonlinear_arith)
        requires
            ds.last() as nat >= 1,
    ;
}

/// The number written by the digits below position `i`.
pub open spec fn low_value(ds: Seq<u8>, i: int) -> nat {
    if i < ds.len() {
        digits_value(ds.subrange(0, i))
    } else {
        digits_value(ds)
    }
}

/// The digit at position `i`, zero past the end.
pub open spec fn digit_at(ds: Seq<u8>, i: int) -> nat {
    if 0 <= i < ds.len() {
        ds[i] as nat
    } else {
        0
    }
}

/// The number written by big-endian hexadecimal digits.
pub open spec fn hex_value(s: Seq<char>) -> nat
    decreases s.len(),
{
    if s.len() == 0 {
        0
    } else {
        hex_value(s.drop_last()) * 16 + hex_digit_value(s.last())
    }
}

proof fn lemma_low_value_step(ds: Seq<u8>, i: int)
    requires
        0 <= i,
    ensures
        low_value(ds, i + 1) == low_value(ds, i) + pow16(i as nat) * digit_at(ds, i),
{
    if i < ds.len() {
        lemma_value_push(ds.subrange(0, i), ds[i]);
        assert(ds.subrange(0, i).push(ds[i]) =~= ds.subrange(0, i + 1));
        if i + 1 == ds.len() {
            assert(ds.subrange(0, i + 1) =~= ds);
        }
    } else {
        assert(digit_at(ds, i) == 0);
        assert(pow16(i as nat) * 0 == 0);
    }
}

proof fn lemma_low_value_zero(ds: Seq<u8>)
    ensures
        low_value(ds, 0) == 0,
{
    if ds.len() > 0 {
        assert(ds.subrange(0, 0) =~= Seq::<u8>::empty());
    }
}

/// Two numbers of equal length that agree above position `j` and differ at `j` are
/// ordered as their digits at `j`.
proof fn lemma_compare_at(a: Seq<u8>, b: Seq<u8>, j: int)
    requires
        a.len() == b.len(),
        0 <= j < a.len(),
        forall|i: int| 0 <= i < a.len() ==> #[trigger] a[i] < 16,
        forall|i: int| 0 <= i < b.len() ==> #[trigger] b[i] < 16,
        forall|i: int| j < i < a.len() ==> #[trigger] a[i] == b[i],
        a[j] < b[j],
    ensures
        digits_value(a) < digits_value(b),
{
    let n = a.len() as int;
    lemma_value_split(a, j);
    lemma_value_split(b, j);
    let ha = a.subrange(j, n);
    let hb = b.subrange(j, n);
    assert(ha.drop_first() =~= hb.drop_first());
    assert(digits_value(ha) == a[j] as nat + 16 * digits_value(ha.drop_first()));
    assert(digits_value(hb) == b[j] as nat + 16 * digits_value(hb.drop_first()));
    let la = a.subrange(0, j);
    assert forall|i: int| 0 <= i < la.len() implies #[trigger] la[i] < 16 by {
        assert(la[i] == a[i]);
    }
    lemma_value_bound(la);
    assert(la.len() == j);
    let p = pow16(j as nat);
    let x = digits_value(ha);
    let y = digits_value(hb);
    assert(p * x + p <= p * y) by (nonlinear_arith)
        requires
            x + 1 <= y,
    ;
}

/// An arbitrary-precision natural number.
#[derive(Debug, PartialEq, Eq)]
pub struct Power {
    digits: Vec<u8>,
}

impl View for Power {
    type V = nat;

    closed spec fn view(&self) -> nat {
        digits_value(self.digits@)
    }
}

impl Clone for Power {
    fn clone(&self) -> (r: Power)
        ensures
            r@ == self@,
    {
        self.duplicate()
    }
}

impl Power {
    #[verifier::type_invariant]
    spec fn canonical(&self) -> bool {
        digits_canonical(self.digits@)
    }

    /// Zero.
    pub fn zero() -> (r: Power)
        ensures
            r@ == 0,
    {
        Power { digits: Vec::new() }
    }

    /// Strips zero most significant digits.
    fn trimmed(ds: Vec<u8>) -> (r: Power)
        requires
            forall|i: int| 0 <= i < ds@.len() ==> #[trigger] ds@[i] < 16,
        ensures
            r@ == digits_value(ds@),
    {
        let mut ds = ds;
        let ghost v = digits_value(ds@);
        while ds.len() > 0 && ds[ds.len() - 1] == 0
            invariant
                digits_value(ds@) == v,
                forall|i: int| 0 <= i < ds@.len() ==> #[trigger] ds@[i] < 16,
            decreases ds.len(),
        {
            proof {
                lemma_value_drop_zero(ds@);
            }
            ds.pop();
        }
        Power { digits: ds }
    }

    /// The value of a machine integer.
    pub fn from_u64(n: u64) -> (r: Power)
        ensures
            r@ == n,
    {
        let mut ds: Vec<u8> = Vec::new();
        let mut m: u64 = n;
        assert(digits_value(ds@) == 0 && pow16(0) == 1);
        while m > 0
            invariant
                digits_value(ds@) + pow16(ds@.len()) * m == n,
                forall|i: int| 0 <= i < ds@.len() ==> #[trigger] ds@[i] < 16,
            decreases m,
        {
            let d: u8 = (m % 16) as u8;
            proof {
                lemma_value_push(ds@, d);
                let p = pow16(ds@.len());
                assert(p * (m as nat) == p * d + (16 * p) * ((m / 16) as nat)) by (nonlinear_arith)
                    requires
                        m as nat == d + 16 * ((m / 16) as nat),
                ;
            }
            ds.push(d);
            m = m / 16;
        }
        Power::trimmed(ds)
    }

    /// The sum of two numbers, exact at any size.
    pub fn add(&self, other: &Power) -> (r: Power)
        ensures
            r@ == self@ + other@,
    {
        proof {
            use_type_invariant(self);
            use_type_invariant(other);
        }
        let la = self.digits.len();
        let lb = other.digits.len();
        let n = if la > lb {
            la
        } else {
            lb
        };
        let mut ds: Vec<u8> = Vec::new();
        let mut carry: u8 = 0;
        let mut i: usize = 0;
        proof {
            lemma_low_value_zero(self.digits@);
            lemma_low_value_zero(other.digits@);
            assert(digits_value(ds@) == 0);
        }
        while i < n
            invariant
                la == self.digits@.len(),
                lb == other.digits@.len(),
                n == if la > lb {
                    la
                } else {
                    lb
                },
                i <= n,
                carry <= 1,
                digits_canonical(self.digits@),
                digits_canonical(other.digits@),
                forall|j: int| 0 <= j < ds@.len() ==> #[trigger] ds@[j] < 16,
                digits_value(ds@) + pow16(ds@.len()) * carry == low_value(self.digits@, i as int)
                    + low_value(other.digits@, i as int),
                ds@.len() == i,
            decreases n - i,
        {
            let a: u8 = if i < la {
                self.digits[i]
            } else {
                0
            };
            let b: u8 = if i < lb {
                other.digits[i]
            } else {
                0
            };
            let t: u8 = a + b + carry;
            let d: u8 = t % 16;
            let c: u8 = t / 16;
            proof {
                lemma_low_value_step(self.digits@, i as int);
                lemma_low_value_step(other.digits@, i as int);
                lemma_value_push(ds@, d);
                assert(digit_at(self.digits@, i as int) == a as nat);
                assert(digit_at(other.digits@, i as int) == b as nat);
                let p = pow16(i as nat);
                assert(p * d + (16 * p) * c == p * carry + p * a + p * b) by (nonlinear_arith)
                    requires
                        t == 16 * c + d,
                        t == a + b + carry,
                ;
            }
            ds.push(d);
            carry = c;
            i = i + 1;
        }
        if carry > 0 {
            proof {
                lemma_value_push(ds@, carry);
            }
            ds.push(carry);
        }
        proof {
            assert(low_value(self.digits@, n as int) == self@);
            assert(low_value(other.digits@, n as int) == other@);
        }
        Power::trimmed(ds)
    }

    /// Whether this number is below `other`.
    pub fn less_than(&self, other: &Power) -> (r: bool)
        ensures
            r == (self@ < other@),
    {
        proof {
            use_type_invariant(self);
            use_type_invariant(other);
        }
        let la = self.digits.len();
        let lb = other.digits.len();
        if la != lb {
            proof {
                lemma_value_bound(self.digits@);
                lemma_value_bound(other.digits@);
                if la < lb {
                    lemma_value_lower_bound(other.digits@);
                    lemma_pow16_monotonic(la as nat, (lb - 1) as nat);
                } else {
                    lemma_value_lower_bound(self.digits@);
                    lemma_pow16_monotonic(lb as nat, (la - 1) as nat);
                }
            }
            return la < lb;
        }
        let mut i: usize = la;
        while i > 0
            invariant
                i <= la,
                la == self.digits@.len(),
                lb == other.digits@.len(),
                la == lb,
                digits_canonical(self.digits@),
                digits_canonical(other.digits@),
                forall|j: int| i <= j < la ==> #[trigger] self.digits@[j] == other.digits@[j],
            decreases i,
        {
            let j = i - 1;
            let a = self.digits[j];
            let b = other.digits[j];
            if a != b {
                proof {
                    if a < b {
                        lemma_compare_at(self.digits@, other.digits@, j as int);
                    } else {
                        lemma_compare_at(other.digits@, self.digits@, j as int);
                    }
                }
                return a < b;
            }
            i = j;
        }
        proof {
            assert(self.digits@ =~= other.digits@);
        }
        false
    }

    /// The number written by the hexadecimal digits of `cs` from position `start` on,
    /// or `None` when one of them is not a hexadecimal digit.
    pub fn from_hex_digits(cs: &Vec<char>, start: usize) -> (r: Option<Power>)
        requires
            start <= cs@.len(),
        ensures
            r is Some <==> all_hex_digits(cs@.subrange(start as int, cs@.len() as int)),
            r is Some ==> r->0@ == hex_value(cs@.subrange(start as int, cs@.len() as int)),
    {
        let mut ds: Vec<u8> = Vec::new();
        let mut i: usize = start;
        proof {
            assert(cs@.subrange(start as int, start as int) =~= Seq::<char>::empty());
        }
        while i < cs.len()
            invariant
                start <= i <= cs@.len(),
                forall|j: int| 0 <= j < ds@.len() ==> #[trigger] ds@[j] < 16,
                digits_value(ds@) == hex_value(cs@.subrange(start as int, i as int)),
                all_hex_digits(cs@.subrange(start as int, i as int)),
            decreases cs@.len() - i,
        {
            let c = cs[i];
            match hex_digit(c) {
                None => {
                    proof {
                        let tail = cs@.subrange(start as int, cs@.len() as int);
                        assert(tail[i - start] == c);
                    }
                    return None;
                },
                Some(d) => {
                    proof {
                        let old_ds = ds@;
                        let next = old_ds.insert(0, d);
                        assert(next.drop_first() =~= old_ds);
                        assert(next[0] == d);
                        let seen = cs@.subrange(start as int, i as int + 1);
                        assert(seen.drop_last() =~= cs@.subrange(start as int, i as int));
                        assert(seen.last() == c);
                        assert(digits_value(next) == d as nat + 16 * digits_value(old_ds));
                        assert forall|j: int| 0 <= j < seen.len() implies is_hex_digit(#[trigger] seen[j]) by {
                            if j < seen.len() - 1 {
                                assert(seen[j] == cs@.subrange(start as int, i as int)[j]);
                            }
                        }
                    }
                    ds.insert(0, d);
                },
            }
            i = i + 1;
        }
        Some(Power::trimmed(ds))
    }

    /// The little-endian base-16 digits, without zero most significant digits.
    pub fn hex_digits(&self) -> (r: Vec<u8>)
        ensures
            digits_value(r@) == self@,
            digits_canonical(r@),
    {
        proof {
            use_type_invariant(self);
        }
        self.digits.clone()
    }

    /// The number with the given little-endian base-16 digits, or `None` when one of
    /// them is 16 or more.
    pub fn from_digits(ds: Vec<u8>) -> (r: Option<Power>)
        ensures
            r is Some <==> forall|i: int| 0 <= i < ds@.len() ==> #[trigger] ds@[i] < 16,
            r is Some ==> r->0@ == digits_value(ds@),
    {
        let mut i: usize = 0;
        while i < ds.len()
            invariant
                i <= ds@.len(),
                forall|j: int| 0 <= j < i ==> #[trigger] ds@[j] < 16,
            decreases ds@.len() - i,
        {
            if ds[i] >= 16 {
                return None;
            }
            i = i + 1;
        }
        Some(Power::trimmed(ds))
    }

    /// A second number of the same value.
    pub fn duplicate(&self) -> (r: Power)
        ensures
            r@ == self@,
    {
        proof {
            use_type_invariant(self);
        }
        let ds = self.digits.clone();
        proof {
            assert(ds@ =~= self.digits@);
        }
        Power { digits: ds }
    }

    /// Whether this is zero.
    pub fn is_zero(&self) -> (r: bool)
        ensures
            r == (self@ == 0),
    {
        proof {
            use_type_invariant(self);
            if self.digits@.len() > 0 {
                lemma_value_lower_bound(self.digits@);
                lemma_pow16_positive((self.digits@.len() - 1) as nat);
            }
        }
        self.digits.len() == 0
    }
}

} // verus!
