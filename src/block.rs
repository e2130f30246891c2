//! The header fields of a block's encoding that mining touches: height,
//! timestamp, nonce and extra-nonce, at fixed offsets, big-endian.
use crate::bignum::{be_value, byte_pow, lemma_be_bound, lemma_be_split, lemma_byte_pow_positive};
use vstd::prelude::*;

verus! {

pub const HEIGHT_OFFSET: usize = 0;

pub const TIMESTAMP_OFFSET: usize = 8;

pub const NONCE_OFFSET: usize = 24;

pub const EXTRA_NONCE_OFFSET: usize = 32;

pub const EXTRA_NONCE_SIZE: usize = 32;

/// Bytes before the rest of the block: the fields above.
pub const HEADER_SIZE: usize = 64;

/// The index of the extra-nonce byte that names the worker.
pub const WORKER_BYTE: usize = 63;

/// The number held big-endian in `len` bytes from `offset`.
pub open spec fn field_value(bytes: Seq<u8>, offset: nat, len: nat) -> nat {
    be_value(bytes.subrange(offset as int, (offset + len) as int))
}


pub proof fn lemma_byte_pow_8()
    ensures
        byte_pow(8) == 0x1_0000_0000_0000_0000,
{
    reveal_with_fuel(byte_pow, 9);
}

pub proof fn lemma_byte_pow_16()
    ensures
        byte_pow(16) == 0x1_0000_0000_0000_0000_0000_0000_0000_0000,
{
    reveal_with_fuel(byte_pow, 17);
}

proof fn lemma_byte_pow_monotone(a: nat, b: nat)
    requires
        a <= b,
    ensures
        byte_pow(a) <= byte_pow(b),
    decreases b,
{
    if a < b {
        lemma_byte_pow_monotone(a, (b - 1) as nat);
        lemma_byte_pow_positive((b - 1) as nat);
    }
}

/// Reads the number held big-endian in the 8 bytes from `offset`.
pub fn read_u64_be(bytes: &Vec<u8>, offset: usize) -> (r: u64)
    requires
        offset + 8 <= bytes@.len(),
    ensures
        r == field_value(bytes@, offset as nat, 8),
{
    let mut v: u64 = 0;
    let mut i: usize = 0;
    let n = bytes.len();
    while i < 8
        invariant
            i <= 8,
            n == bytes@.len(),
            offset + 8 <= bytes@.len(),
            v == be_value(bytes@.subrange(offset as int, offset + i)),
        decreases 8 - i,
    {
        let ghost s = bytes@.subrange(offset as int, offset + i);
        let ghost s2 = bytes@.subrange(offset as int, offset + i + 1);
        proof {
            lemma_be_bound(s);
            lemma_byte_pow_monotone(i as nat, 7);
            lemma_byte_pow_8();
            assert(byte_pow(8) == 256 * byte_pow(7));
            assert(s2.drop_last() =~= s);
            assert(be_value(s2) == be_value(s) * 256 + s2.last() as nat);
            assert(v < 0x100_0000_0000_0000);
        }
        let b = bytes[offset + i];
        v = v * 256 + b as u64;
        i = i + 1;
    }
    v
}

/// Writes `v` big-endian into the `len` bytes from `offset`; the other bytes
/// stay as they were.
pub fn write_be(bytes: &mut Vec<u8>, offset: usize, len: usize, v: u128)
    requires
        offset + len <= old(bytes)@.len(),
        v < byte_pow(len as nat),
    ensures
        final(bytes)@.len() == old(bytes)@.len(),
        field_value(final(bytes)@, offset as nat, len as nat) == v,
        forall|j: int|
            0 <= j < old(bytes)@.len() && !(offset <= j < offset + len)
                ==> #[trigger] final(bytes)@[j] == old(bytes)@[j],
{
    let ghost orig = bytes@;
    let mut x: u128 = v;
    let mut i: usize = len;
    let n = bytes.len();
    proof {
        assert(byte_pow((len - i) as nat) == 1);
        assert(bytes@.subrange((offset + len) as int, (offset + len) as int).len() == 0);
        assert(be_value(bytes@.subrange((offset + len) as int, (offset + len) as int)) == 0);
        assert(byte_pow(0) == 1);
    }
    while i > 0
        invariant
            i <= len,
            offset + len <= orig.len(),
            n == orig.len(),
            bytes@.len() == orig.len(),
            x < byte_pow(i as nat),
            be_value(bytes@.subrange(offset + i, offset + len)) + x * byte_pow((len - i) as nat)
                == v,
            forall|j: int|
                0 <= j < orig.len() && !(offset + i <= j < offset + len) ==> #[trigger] bytes@[j]
                    == orig[j],
        decreases i,
    {
        let b: u8 = (x % 256) as u8;
        let ghost old_sub = bytes@.subrange(offset + i, offset + len);
        let ghost xi = x as nat;
        bytes.set(offset + i - 1, b);
        x = x / 256;
        i = i - 1;
        proof {
            let sub = bytes@.subrange(offset + i, offset + len);
            assert(sub.drop_first() =~= old_sub);
            assert(sub[0] == b);
            lemma_be_split(sub, 1);
            assert(sub.take(1).drop_last().len() == 0);
            assert(be_value(sub.take(1).drop_last()) == 0);
            assert(sub.take(1).last() == b);
            assert(be_value(sub.take(1)) == b as nat);
            assert(sub.skip(1) =~= old_sub);
            let p = byte_pow((len - i - 1) as nat);
            assert(byte_pow((len - i) as nat) == 256 * p);
            assert(byte_pow((i + 1) as nat) == 256 * byte_pow(i as nat));
            let q = byte_pow(i as nat);
            assert(xi == (xi / 256) * 256 + b as nat);
            assert((xi / 256) * (256 * p) + b as nat * p == xi * p) by (nonlinear_arith)
                requires
                    xi == (xi / 256) * 256 + b as nat,
            ;
            assert(xi / 256 < q) by (nonlinear_arith)
                requires
                    xi < 256 * q,
            ;
        }
    }
    proof {
        assert(byte_pow(0) == 1);
    }
}

} // verus!
