use vstd::prelude::*;

use crate::principal::LedgerKey;

verus! {

/// `256` to the power `n`.
pub open spec fn pow256(n: nat) -> nat
    decreases n,
{
    if n == 0 {
        1
    } else {
        256 * pow256((n - 1) as nat)
    }
}

/// The number that little-endian base-256 digits denote.
pub open spec fn digits_value(d: Seq<u8>) -> nat
    decreases d.len(),
{
    if d.len() == 0 {
        0
    } else {
        d[0] as nat + 256 * digits_value(d.drop_first())
    }
}

/// The digits have no trailing zero, so each number has one digit sequence.
pub open spec fn canonical(d: Seq<u8>) -> bool {
    d.len() == 0 || d.last() != 0
}

/// Appending a digit adds it at the next power of 256.
#[verifier::spinoff_prover]
pub proof fn lemma_digits_push(d: Seq<u8>, b: u8)
    ensures
        digits_value(d.push(b)) == digits_value(d) + pow256(d.len()) * b,
    decreases d.len(),
{
    assert(digits_value(Seq::<u8>::empty()) == 0);
    if d.len() == 0 {
        assert(d.push(b).drop_first() =~= Seq::<u8>::empty());
        assert(pow256(0) == 1);
    } else {
        let r = d.drop_first();
        lemma_digits_push(r, b);
        assert(d.push(b).drop_first() =~= r.push(b));
        let v = digits_value(r);
        let p = pow256(r.len());
        assert(pow256(d.len()) == 256 * p);
        assert(digits_value(d) == d[0] as nat + 256 * v);
        assert(digits_value(d.push(b)) == d[0] as nat + 256 * digits_value(r.push(b)));
        assert(256 * (v + p * b) == 256 * v + (256 * p) * b) by (nonlinear_arith);
    }
}

/// Digits followed by more digits: the second part counts from the power
/// of 256 at which it starts.
#[verifier::spinoff_prover]
pub proof fn lemma_digits_append(a: Seq<u8>, b: Seq<u8>)
    ensures
        digits_value(a + b) == digits_value(a) + pow256(a.len()) * digits_value(b),
    decreases a.len(),
{
    if a.len() == 0 {
        assert(a + b =~= b);
        assert(digits_value(a) == 0);
        assert(pow256(a.len()) == 1);
        let w = digits_value(b);
        assert(pow256(a.len()) * w == w) by (nonlinear_arith)
            requires
                pow256(a.len()) == 1,
        ;
    } else {
        let r = a.drop_first();
        lemma_digits_append(r, b);
        assert((a + b).drop_first() =~= r + b);
        let v = digits_value(r);
        let p = pow256(r.len());
        let w = digits_value(b);
        assert(pow256(a.len()) == 256 * p);
        assert(digits_value(a) == a[0] as nat + 256 * v);
        assert((a + b)[0] == a[0]);
        assert(digits_value(a + b) == a[0] as nat + 256 * digits_value(r + b));
        assert(256 * (v + p * w) == 256 * v + (256 * p) * w) by (nonlinear_arith);
        assert(digits_value(r + b) == v + p * w);
        assert(digits_value(a + b) == a[0] as nat + 256 * v + (256 * p) * w);
        assert(pow256(a.len()) * w == (256 * p) * w);
    }
}

/// Trailing zero digits add nothing.
pub proof fn lemma_digits_trailing_zeros(d: Seq<u8>, k: int)
    requires
        0 <= k <= d.len(),
        forall|i: int| k <= i < d.len() ==> d[i] == 0,
    ensures
        digits_value(d) == digits_value(d.take(k)),
    decreases d.len() - k,
{
    if k < d.len() {
        let n = d.len() as int;
        lemma_digits_trailing_zeros(d, k + 1);
        assert(d.take(k + 1) =~= d.take(k).push(0));
        lemma_digits_push(d.take(k), 0);
    } else {
        assert(d.take(k) =~= d);
    }
}

/// Canonical digits of a positive number are not empty, and the empty
/// digits denote zero.
proof fn lemma_canonical_positive(d: Seq<u8>)
    requires
        canonical(d),
        d.len() > 0,
    ensures
        digits_value(d) > 0,
    decreases d.len(),
{
    if d.len() > 1 {
        let r = d.drop_first();
        assert(r.last() == d.last());
        lemma_canonical_positive(r);
    }
}

/// Each number has one canonical digit sequence.
pub proof fn lemma_canonical_unique(a: Seq<u8>, b: Seq<u8>)
    requires
        canonical(a),
        canonical(b),
        digits_value(a) == digits_value(b),
    ensures
        a == b,
    decreases a.len(),
{
    if a.len() == 0 {
        if b.len() > 0 {
            lemma_canonical_positive(b);
        }
        assert(a =~= b);
    } else {
        lemma_canonical_positive(a);
        if b.len() == 0 {
            assert(false);
        }
        let ra = a.drop_first();
        let rb = b.drop_first();
        let a0 = a[0] as int;
        let b0 = b[0] as int;
        let va = digits_value(ra) as int;
        let vb = digits_value(rb) as int;
        assert(a0 + 256 * va == b0 + 256 * vb);
        assert(a0 == b0 && va == vb) by (nonlinear_arith)
            requires
                a0 + 256 * va == b0 + 256 * vb,
                0 <= a0 < 256,
                0 <= b0 < 256,
                va >= 0,
                vb >= 0,
        ;
        assert(canonical(ra)) by {
            if ra.len() > 0 {
                assert(ra.last() == a.last());
            }
        }
        assert(canonical(rb)) by {
            if rb.len() > 0 {
                assert(rb.last() == b.last());
            }
        }
        lemma_canonical_unique(ra, rb);
        assert(a =~= b) by {
            assert forall|i: int| 0 <= i < a.len() implies a[i] == b[i] by {
                if i > 0 {
                    assert(a[i] == ra[i - 1]);
                    assert(b[i] == rb[i - 1]);
                }
            }
        }
    }
}

/// `i` digits 255.
pub open spec fn all_255(i: nat) -> Seq<u8> {
    Seq::new(i, |j: int| 255u8)
}

/// `i` digits 0.
pub open spec fn all_0(i: nat) -> Seq<u8> {
    Seq::new(i, |j: int| 0u8)
}

proof fn lemma_all_255(i: nat)
    ensures
        digits_value(all_255(i)) + 1 == pow256(i),
    decreases i,
{
    if i > 0 {
        lemma_all_255((i - 1) as nat);
        assert(all_255(i).drop_first() =~= all_255((i - 1) as nat));
    }
}

proof fn lemma_all_0(i: nat)
    ensures
        digits_value(all_0(i)) == 0,
    decreases i,
{
    if i > 0 {
        lemma_all_0((i - 1) as nat);
        assert(all_0(i).drop_first() =~= all_0((i - 1) as nat));
    }
}

/// An unbounded natural number, held by its little-endian base-256 digits
/// without trailing zeros.
#[derive(Debug, PartialEq, Eq, Hash)]
pub struct Nat {
    digits: Vec<u8>,
}

impl View for Nat {
    type V = nat;

    closed spec fn view(&self) -> nat {
        digits_value(self.digits@)
    }
}

impl Nat {
    #[verifier::type_invariant]
    spec fn digits_canonical(self) -> bool {
        canonical(self.digits@)
    }

    /// Zero.
    pub fn zero() -> (r: Nat)
        ensures
            r@ == 0,
    {
        Nat { digits: Vec::new() }
    }

    /// The number with the given little-endian base-256 digits, which may
    /// have trailing zeros.
    pub fn from_le_bytes(b: &[u8]) -> (r: Nat)
        ensures
            r@ == digits_value(b@),
    {
        let mut k = b.len();
        while k > 0 && b[k - 1] == 0
            invariant
                k <= b@.len(),
                forall|i: int| k <= i < b@.len() ==> b@[i] == 0,
            decreases k,
        {
            k = k - 1;
        }
        let mut digits: Vec<u8> = Vec::new();
        let mut i: usize = 0;
        while i < k
            invariant
                k <= b@.len(),
                i <= k,
                digits@ =~= b@.take(i as int),
            decreases k - i,
        {
            digits.push(b[i]);
            i = i + 1;
            assert(digits@ =~= b@.take(i as int));
        }
        proof {
            lemma_digits_trailing_zeros(b@, k as int);
            if k > 0 {
                assert(digits@.last() == b@[k - 1]);
            }
        }
        Nat { digits }
    }

    /// The number's little-endian base-256 digits, without trailing zeros.
    pub fn to_le_bytes(&self) -> (r: Vec<u8>)
        ensures
            digits_value(r@) == self@,
            canonical(r@),
    {
        proof {
            use_type_invariant(self);
        }
        let n = self.digits.len();
        let mut r: Vec<u8> = Vec::new();
        let mut i: usize = 0;
        while i < n
            invariant
                n == self.digits@.len(),
                i <= n,
                r@ =~= self.digits@.take(i as int),
            decreases n - i,
        {
            r.push(self.digits[i]);
            i = i + 1;
            assert(r@ =~= self.digits@.take(i as int));
        }
        assert(r@ =~= self.digits@);
        r
    }

    /// The number `x`.
    pub fn from_u64(x: u64) -> (r: Nat)
        ensures
            r@ == x,
    {
        let mut digits: Vec<u8> = Vec::new();
        let mut rest: u64 = x;
        let ghost mut p: nat = 1;
        while rest > 0
            invariant
                p == pow256(digits@.len()),
                x == digits_value(digits@) + p * rest,
                rest > 0 || canonical(digits@),
            decreases rest,
        {
            let digit = (rest % 256) as u8;
            proof {
                lemma_digits_push(digits@, digit);
                let q = (rest / 256) as int;
                let r = rest as int;
                assert(r == digit + 256 * q);
                assert(p * r == p * digit + (256 * p) * q) by (nonlinear_arith)
                    requires
                        r == digit + 256 * q,
                ;
            }
            digits.push(digit);
            rest = rest / 256;
            proof {
                p = 256 * p;
            }
        }
        Nat { digits }
    }

    /// The number one more than `self`.
    pub fn increment(&self) -> (r: Nat)
        ensures
            r@ == self@ + 1,
    {
        proof {
            use_type_invariant(self);
        }
        let n = self.digits.len();
        let mut out: Vec<u8> = Vec::new();
        let mut i: usize = 0;
        while i < n && self.digits[i] == 255
            invariant
                n == self.digits@.len(),
                i <= n,
                out@ == all_0(i as nat),
                self.digits@.take(i as int) == all_255(i as nat),
            decreases n - i,
        {
            out.push(0);
            i = i + 1;
            assert(out@ =~= all_0(i as nat));
            assert(self.digits@.take(i as int) =~= all_255(i as nat));
        }
        let ghost d = self.digits@;
        let ghost zeros = out@;
        proof {
            assert(d =~= d.take(i as int) + d.skip(i as int));
            lemma_digits_append(d.take(i as int), d.skip(i as int));
            lemma_all_255(i as nat);
            lemma_all_0(i as nat);
        }
        if i == n {
            out.push(1);
            proof {
                assert(out@ =~= zeros + seq![1u8]);
                lemma_digits_append(zeros, seq![1u8]);
                assert(digits_value(seq![1u8]) == 1) by {
                    assert(seq![1u8].drop_first() =~= Seq::<u8>::empty());
                    assert(digits_value(Seq::<u8>::empty()) == 0);
                }
                assert(d.skip(i as int) =~= Seq::<u8>::empty());
            }
        } else {
            out.push(self.digits[i] + 1);
            let mut j: usize = i + 1;
            while j < n
                invariant
                    n == d.len(),
                    i < j <= n,
                    self.digits@ == d,
                    out@ =~= zeros + seq![(d[i as int] + 1) as u8] + d.subrange(i + 1, j as int),
                decreases n - j,
            {
                out.push(self.digits[j]);
                j = j + 1;
                assert(out@ =~= zeros + seq![(d[i as int] + 1) as u8] + d.subrange(i + 1, j as int));
            }
            proof {
                let tail = d.subrange(i + 1, n as int);
                let bumped = seq![(d[i as int] + 1) as u8] + tail;
                assert(out@ =~= zeros + bumped);
                lemma_digits_append(zeros, bumped);
                assert(bumped.drop_first() =~= tail);
                assert(d.skip(i as int).drop_first() =~= tail);
                let p = pow256(i as nat);
                let v = digits_value(d.skip(i as int));
                assert(digits_value(bumped) == v + 1);
                assert(p * (v + 1) == p * v + p) by (nonlinear_arith);
                if n > i + 1 {
                    assert(out@.last() == d.last());
                }
            }
        }
        proof {
            let p = pow256(i as nat);
            let v = digits_value(d.skip(i as int));
            assert(p * (v + 1) == p * v + p) by (nonlinear_arith);
        }
        Nat { digits: out }
    }
}

impl LedgerKey for Nat {
    fn same_key(&self, other: &Self) -> (r: bool) {
        proof {
            use_type_invariant(self);
            use_type_invariant(other);
        }
        let n = self.digits.len();
        if n != other.digits.len() {
            proof {
                if self@ == other@ {
                    lemma_canonical_unique(self.digits@, other.digits@);
                }
            }
            return false;
        }
        let mut i: usize = 0;
        while i < n
            invariant
                n == self.digits@.len(),
                n == other.digits@.len(),
                canonical(self.digits@),
                canonical(other.digits@),
                i <= n,
                forall|j: int| 0 <= j < i ==> self.digits@[j] == other.digits@[j],
            decreases n - i,
        {
            if self.digits[i] != other.digits[i] {
                proof {
                    if self@ == other@ {
                        lemma_canonical_unique(self.digits@, other.digits@);
                    }
                }
                return false;
            }
            i = i + 1;
        }
        assert(self.digits@ =~= other.digits@);
        true
    }

    fn key_copy(&self) -> (r: Self) {
        Nat::from_le_bytes(self.digits.as_slice())
    }
}

} // verus!
