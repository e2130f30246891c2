//! Unsigned integers of any width, held as big-endian bytes.
use vstd::prelude::*;

verus! {

/// `256^n`.
pub open spec fn byte_pow(n: nat) -> nat
    decreases n,
{
    if n == 0 {
        1
    } else {
        256 * byte_pow((n - 1) as nat)
    }
}

/// The number that `s` spells in big-endian order (the empty sequence is 0).
pub open spec fn be_value(s: Seq<u8>) -> nat
    decreases s.len(),
{
    if s.len() == 0 {
        0
    } else {
        be_value(s.drop_last()) * 256 + s.last() as nat
    }
}

/// `n` zero bytes.
pub open spec fn zero_bytes(n: nat) -> Seq<u8> {
    Seq::new(n, |i: int| 0u8)
}

pub proof fn lemma_byte_pow_positive(n: nat)
    ensures
        byte_pow(n) >= 1,
    decreases n,
{
    if n > 0 {
        lemma_byte_pow_positive((n - 1) as nat);
    }
}

/// A value of `n` bytes is below `256^n`.
pub proof fn lemma_be_bound(s: Seq<u8>)
    ensures
        be_value(s) < byte_pow(s.len()),
    decreases s.len(),
{
    if s.len() > 0 {
        let p = s.drop_last();
        lemma_be_bound(p);
        let v = be_value(p);
        let b = byte_pow(p.len());
        let l = s.last() as nat;
        assert(v * 256 + l < 256 * b) by (nonlinear_arith)
            requires
                v < b,
                l < 256,
        ;
    }
}

/// Cutting `s` after `k` bytes: the front counts `256^(len - k)` times.
pub proof fn lemma_be_split(s: Seq<u8>, k: nat)
    requires
        k <= s.len(),
    ensures
        be_value(s) == be_value(s.take(k as int)) * byte_pow((s.len() - k) as nat) + be_value(
            s.skip(k as int),
        ),
    decreases s.len(),
{
    if k == s.len() {
        assert(s.take(k as int) =~= s);
        assert(s.skip(k as int).len() == 0);
        assert(be_value(s.skip(k as int)) == 0);
        assert((s.len() - k) as nat == 0);
        assert(byte_pow((s.len() - k) as nat) == 1);
        assert(be_value(s.take(k as int)) * byte_pow((s.len() - k) as nat) == be_value(s));
    } else {
        let p = s.drop_last();
        lemma_be_split(p, k);
        assert(p.take(k as int) =~= s.take(k as int));
        assert(s.skip(k as int).drop_last() =~= p.skip(k as int));
        assert(s.skip(k as int).last() == s.last());
        assert(be_value(s.skip(k as int)) == be_value(p.skip(k as int)) * 256 + s.last() as nat);
        assert(byte_pow((s.len() - k) as nat) == 256 * byte_pow((p.len() - k) as nat));
        assert(be_value(s) == be_value(p) * 256 + s.last() as nat);
        let f = be_value(s.take(k as int));
        let q = byte_pow((p.len() - k) as nat);
        let r = be_value(p.skip(k as int));
        assert((f * q + r) * 256 + s.last() as nat == f * (256 * q) + (r * 256
            + s.last() as nat)) by (nonlinear_arith);
    }
}

/// Leading zero bytes do not change the value.
pub proof fn lemma_be_zero_prefix(n: nat, s: Seq<u8>)
    ensures
        be_value(zero_bytes(n) + s) == be_value(s),
{
    let z = zero_bytes(n);
    lemma_be_zeros(n);
    lemma_be_split(z + s, n);
    assert((z + s).take(n as int) =~= z);
    assert((z + s).skip(n as int) =~= s);
}

pub proof fn lemma_be_zeros(n: nat)
    ensures
        be_value(zero_bytes(n)) == 0,
    decreases n,
{
    if n > 0 {
        lemma_be_zeros((n - 1) as nat);
        assert(zero_bytes(n).drop_last() =~= zero_bytes((n - 1) as nat));
    }
}

/// Two sequences of one length that agree before `i` and differ at `i` are
/// ordered by the byte at `i`.
pub proof fn lemma_be_first_difference(a: Seq<u8>, b: Seq<u8>, i: nat)
    requires
        a.len() == b.len(),
        i < a.len(),
        a.take(i as int) == b.take(i as int),
        a[i as int] < b[i as int],
    ensures
        be_value(a) < be_value(b),
{
    let n = a.len();
    lemma_be_split(a, i + 1);
    lemma_be_split(b, i + 1);
    assert(a.take(i as int + 1).drop_last() =~= a.take(i as int));
    assert(b.take(i as int + 1).drop_last() =~= b.take(i as int));
    let f = be_value(a.take(i as int));
    let x = a[i as int] as nat;
    let y = b[i as int] as nat;
    let q = byte_pow((n - i - 1) as nat);
    let ra = be_value(a.skip(i as int + 1));
    let rb = be_value(b.skip(i as int + 1));
    lemma_be_bound(a.skip(i as int + 1));
    assert((f * 256 + x) * q + ra < (f * 256 + y) * q + rb) by (nonlinear_arith)
        requires
            x < y,
            ra < q,
    ;
}

/// A natural number of any size, as big-endian bytes.
pub struct BigNat {
    pub be_bytes: Vec<u8>,
}

impl View for BigNat {
    type V = nat;

    open spec fn view(&self) -> nat {
        be_value(self.be_bytes@)
    }
}

/// Whether the big-endian value of `a` is at most that of `b`.
pub fn be_le(a: &[u8], b: &[u8]) -> (r: bool)
    ensures
        r == (be_value(a@) <= be_value(b@)),
{
    let la = a.len();
    let lb = b.len();
    let n = if la >= lb { la } else { lb };
    let ghost pa = zero_bytes((n - la) as nat) + a@;
    let ghost pb = zero_bytes((n - lb) as nat) + b@;
    proof {
        lemma_be_zero_prefix((n - la) as nat, a@);
        lemma_be_zero_prefix((n - lb) as nat, b@);
    }
    let mut i: usize = 0;
    while i < n
        invariant
            i <= n,
            la == a.len(),
            lb == b.len(),
            la <= n,
            lb <= n,
            pa.len() == n,
            pb.len() == n,
            pa == zero_bytes((n - la) as nat) + a@,
            pb == zero_bytes((n - lb) as nat) + b@,
            pa.take(i as int) == pb.take(i as int),
            be_value(pa) == be_value(a@),
            be_value(pb) == be_value(b@),
        decreases n - i,
    {
        let x: u8 = if i < n - la { 0 } else { a[i - (n - la)] };
        let y: u8 = if i < n - lb { 0 } else { b[i - (n - lb)] };
        assert(x == pa[i as int]);
        assert(y == pb[i as int]);
        if x != y {
            proof {
                if x < y {
                    lemma_be_first_difference(pa, pb, i as nat);
                } else {
                    lemma_be_first_difference(pb, pa, i as nat);
                }
            }
            return x < y;
        }
        assert(pa.take(i as int + 1) =~= pa.take(i as int).push(x));
        assert(pb.take(i as int + 1) =~= pb.take(i as int).push(y));
        i = i + 1;
    }
    assert(pa =~= pa.take(n as int));
    assert(pb =~= pb.take(n as int));
    true
}

impl BigNat {
    /// Whether `self <= other`.
    pub fn le(&self, other: &BigNat) -> (r: bool)
        ensures
            r == (self@ <= other@),
    {
        be_le(self.be_bytes.as_slice(), other.be_bytes.as_slice())
    }
}

} // verus!
