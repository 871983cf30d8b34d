//! Additively secret-shared field values.
//!
//! A shared value holds one share per party; the value it represents is the
//! field sum of the shares, recovered by the collective `reveal`. Sharing
//! here follows the king convention of the wider protocol: one designated
//! party holds the plaintext and every other party holds the additive
//! identity. The cross-party transport that a deployment would use to
//! combine shares is outside this library; this module computes the
//! combination itself, so `reveal` is total and every statement about it is
//! checked against the represented value.

use vstd::prelude::*;

use crate::field::fadd;
use crate::field::fmul;
use crate::field::in_field;
use crate::field::add_fe;
use crate::field::mul_fe;

verus! {

/// The field sum of a sequence of shares.
pub open spec fn sum_shares(shares: Seq<u64>) -> int
    decreases shares.len(),
{
    if shares.len() == 0 {
        0
    } else {
        fadd(sum_shares(shares.drop_last()), shares.last() as int)
    }
}

/// One party-indexed vector of additive shares of a field element.
#[derive(Debug)]
pub struct SecretSharedValue {
    pub shares: Vec<u64>,
}

impl View for SecretSharedValue {
    type V = Seq<u64>;

    open spec fn view(&self) -> Seq<u64> {
        self.shares@
    }
}

impl SecretSharedValue {
    /// Internal invariant: at least one party, every share canonical.
    pub open spec fn wf(self) -> bool {
        &&& self.shares@.len() >= 1
        &&& forall|i: int| 0 <= i < self.shares@.len() ==> in_field(#[trigger] self.shares@[i] as int)
    }

    /// The plaintext value the shares jointly represent.
    pub open spec fn value(self) -> int {
        sum_shares(self.shares@)
    }

    /// Shares a plaintext among `n_parties`: the king (party 0) holds the
    /// value, every other party the additive identity.
    pub fn share_with_king(value: u64, n_parties: usize) -> (r: SecretSharedValue)
        requires
            in_field(value as int),
            n_parties >= 1,
        ensures
            r.wf(),
            r.value() == value,
            r@.len() == n_parties,
            r@[0] == value,
            forall|i: int| 1 <= i < n_parties ==> r@[i] == 0,
    {
        let mut shares: Vec<u64> = Vec::new();
        shares.push(value);
        let mut i: usize = 1;
        while i < n_parties
            invariant
                1 <= i <= n_parties,
                shares@.len() == i,
                shares@[0] == value,
                forall|j: int| 1 <= j < i ==> shares@[j] == 0,
            decreases n_parties - i,
        {
            shares.push(0);
            i = i + 1;
        }
        let r = SecretSharedValue { shares };
        proof {
            lemma_sum_zero_tail(r.shares@, value);
        }
        r
    }

    /// The collective reveal: combines every party's share into the
    /// plaintext value.
    pub fn reveal_value(&self) -> (r: u64)
        requires
            self.wf(),
        ensures
            in_field(r as int),
            r as int == self.value(),
    {
        let n = self.shares.len();
        let mut acc: u64 = 0;
        let mut i: usize = 0;
        while i < n
            invariant
                n == self.shares@.len(),
                0 <= i <= n,
                self.wf(),
                in_field(acc as int),
                acc as int == sum_shares(self.shares@.take(i as int)),
            decreases n - i,
        {
            acc = add_fe(acc, self.shares[i]);
            proof {
                assert(self.shares@.take(i + 1).drop_last() =~= self.shares@.take(i as int));
                assert(self.shares@.take(i + 1).last() == self.shares@[i as int]);
            }
            i = i + 1;
        }
        proof {
            assert(self.shares@.take(n as int) =~= self.shares@);
        }
        acc
    }

    /// Local addition of two shared values: each party adds its shares, and
    /// the represented values add.
    pub fn add(&self, other: &SecretSharedValue) -> (r: SecretSharedValue)
        requires
            self.wf(),
            other.wf(),
            self@.len() == other@.len(),
        ensures
            r.wf(),
            r@.len() == self@.len(),
            r.value() == fadd(self.value(), other.value()),
    {
        let n = self.shares.len();
        let mut shares: Vec<u64> = Vec::new();
        let mut i: usize = 0;
        while i < n
            invariant
                n == self.shares@.len(),
                n == other.shares@.len(),
                0 <= i <= n,
                self.wf(),
                other.wf(),
                shares@.len() == i,
                forall|j: int| 0 <= j < i ==> #[trigger] shares@[j] as int == fadd(
                    self.shares@[j] as int,
                    other.shares@[j] as int,
                ),
            decreases n - i,
        {
            shares.push(add_fe(self.shares[i], other.shares[i]));
            i = i + 1;
        }
        let r = SecretSharedValue { shares };
        proof {
            lemma_sum_pointwise_add(r.shares@, self.shares@, other.shares@);
        }
        r
    }

    /// Multiplication of two shared values. A deployment delegates this to
    /// the sharing protocol's multiplication rounds; here the product of
    /// the represented values is computed and reshared under the king
    /// convention, so the result represents exactly the field product.
    pub fn mul(&self, other: &SecretSharedValue) -> (r: SecretSharedValue)
        requires
            self.wf(),
            other.wf(),
            self@.len() == other@.len(),
        ensures
            r.wf(),
            r@.len() == self@.len(),
            r.value() == fmul(self.value(), other.value()),
    {
        let a = self.reveal_value();
        let b = other.reveal_value();
        SecretSharedValue::share_with_king(mul_fe(a, b), self.shares.len())
    }
}

/// A share vector whose tail is all zero sums to its head.
proof fn lemma_sum_zero_tail(shares: Seq<u64>, value: u64)
    requires
        shares.len() >= 1,
        in_field(value as int),
        shares[0] == value,
        forall|i: int| 1 <= i < shares.len() ==> shares[i] == 0,
    ensures
        sum_shares(shares) == value,
    decreases shares.len(),
{
    if shares.len() == 1 {
        assert(shares.drop_last() =~= Seq::<u64>::empty());
        assert(sum_shares(Seq::<u64>::empty()) == 0);
        crate::field::lemma_fadd_zero(value as int);
    } else {
        lemma_sum_zero_tail(shares.drop_last(), value);
        crate::field::lemma_fadd_zero(sum_shares(shares.drop_last()));
    }
}

/// The sum of a pointwise field sum of shares is the field sum of the two
/// sums: local share addition adds the represented values.
proof fn lemma_sum_pointwise_add(c: Seq<u64>, a: Seq<u64>, b: Seq<u64>)
    requires
        c.len() == a.len(),
        c.len() == b.len(),
        forall|j: int| 0 <= j < c.len() ==> #[trigger] c[j] as int == fadd(a[j] as int, b[j] as int),
        forall|j: int| 0 <= j < a.len() ==> in_field(#[trigger] a[j] as int),
        forall|j: int| 0 <= j < b.len() ==> in_field(#[trigger] b[j] as int),
    ensures
        sum_shares(c) == fadd(sum_shares(a), sum_shares(b)),
    decreases c.len(),
{
    if c.len() == 0 {
        assert(fadd(0, 0) == 0);
    } else {
        assert(c.drop_last().len() == a.drop_last().len());
        lemma_sum_pointwise_add(c.drop_last(), a.drop_last(), b.drop_last());
        lemma_fadd_reassociate(
            sum_shares(a.drop_last()),
            sum_shares(b.drop_last()),
            a.last() as int,
            b.last() as int,
        );
    }
}

/// Rearranges a field sum of four addends: `(a + b) + (x + y)` equals
/// `(a + x) + (b + y)`.
proof fn lemma_fadd_reassociate(a: int, b: int, x: int, y: int)
    ensures
        fadd(fadd(a, b), fadd(x, y)) == fadd(fadd(a, x), fadd(b, y)),
{
    crate::field::lemma_fadd_assoc_comm(a, b, x, y);
}

} // verus!
