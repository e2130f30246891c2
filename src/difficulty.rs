//! Difficulty and target arithmetic, bit-exact with the chain's rules.
use crate::bignum::{be_le, be_value, byte_pow, BigNat};
use num_bigint::BigUint;
use num_traits::One;
use vstd::prelude::*;

verus! {

/// Expected time between two blocks, in milliseconds.
pub const BLOCK_TIME_MILLIS: u64 = 15000;

/// No retarget goes below this difficulty.
pub const MINIMUM_DIFFICULTY: u64 = 1;

/// The retarget factor is a fixed-point number with this scale.
pub const EASYPART_SCALE: u64 = 10000;

#[derive(Debug, Clone, Copy, PartialEq, Eq, Structural)]
pub enum DifficultyError {
    /// A difficulty of zero has no target.
    DifficultyCannotBeZero,
    /// The difficulty could not be turned into an arbitrary-precision integer.
    ErrorOnConversionBigUint,
}

/// A 256-bit digest of a block's bytes.
#[derive(Debug, Clone, Copy)]
pub struct Hash {
    pub bytes: [u8; 32],
}

impl Hash {
    pub fn new(bytes: [u8; 32]) -> (r: Hash)
        ensures
            r.bytes@ == bytes@,
    {
        Hash { bytes }
    }

    pub fn as_bytes(&self) -> (r: &[u8; 32])
        ensures
            r@ == self.bytes@,
    {
        &self.bytes
    }
}

/// The digest read as a big-endian unsigned integer.
pub open spec fn hash_value(hash: Hash) -> nat {
    be_value(hash.bytes@)
}

/// `floor(2^256 / difficulty)`.
pub open spec fn target_of(difficulty: nat) -> nat
    recommends
        difficulty > 0,
{
    byte_pow(32) / difficulty
}

pub open spec fn spec_meets_target(hash: Hash, target: nat) -> bool {
    hash_value(hash) <= target
}

pub open spec fn spec_check_difficulty(hash: Hash, difficulty: u64) -> Result<bool, DifficultyError> {
    if difficulty == 0 {
        Err(DifficultyError::DifficultyCannotBeZero)
    } else {
        Ok(spec_meets_target(hash, target_of(difficulty as nat)))
    }
}

/// Relies on num_bigint's `BigUint`: `One::one() << 256`, divided by the
/// `BigUint` made `From` the divisor, handed back by `to_bytes_be` as
/// big-endian bytes.
#[verifier::external_body]
fn pow256_div_be(divisor: u64) -> (r: Vec<u8>)
    requires
        divisor > 0,
    ensures
        be_value(r@) == byte_pow(32) / divisor as nat,
{
    let one_lsh_256: BigUint = BigUint::one() << 256usize;
    (one_lsh_256 / BigUint::from(divisor)).to_bytes_be()
}

/// The target of a difficulty: `floor(2^256 / difficulty)`; zero is refused.
pub fn difficulty_to_big(difficulty: u64) -> (r: Result<BigNat, DifficultyError>)
    ensures
        difficulty == 0 ==> r == Err::<BigNat, DifficultyError>(
            DifficultyError::DifficultyCannotBeZero,
        ),
        difficulty > 0 ==> (r matches Ok(t) && t@ == target_of(difficulty as nat)),
{
    if difficulty == 0 {
        return Err(DifficultyError::DifficultyCannotBeZero);
    }
    Ok(BigNat { be_bytes: pow256_div_be(difficulty) })
}

/// The digest as an unsigned integer, big-endian.
pub fn hash_to_big(hash: &Hash) -> (r: BigNat)
    ensures
        r@ == hash_value(*hash),
        r.be_bytes@ == hash.bytes@,
{
    let mut v: Vec<u8> = Vec::new();
    let mut i: usize = 0;
    while i < 32
        invariant
            i <= 32,
            v@ == hash.bytes@.take(i as int),
        decreases 32 - i,
    {
        v.push(hash.bytes[i]);
        i = i + 1;
    }
    assert(v@ =~= hash.bytes@);
    BigNat { be_bytes: v }
}

/// Whether the digest, read big-endian, is at most the target.
pub fn meets_target(hash: &Hash, target: &BigNat) -> (r: bool)
    ensures
        r == spec_meets_target(*hash, target@),
{
    be_le(hash.bytes.as_slice(), target.be_bytes.as_slice())
}

/// Whether the digest satisfies the target of `difficulty`.
pub fn check_difficulty(hash: &Hash, difficulty: u64) -> (r: Result<bool, DifficultyError>)
    ensures
        r == spec_check_difficulty(*hash, difficulty),
{
    let big_diff = match difficulty_to_big(difficulty) {
        Ok(t) => t,
        Err(e) => return Err(e),
    };
    Ok(meets_target(hash, &big_diff))
}

/// Checking a difficulty is comparing the digest with the difficulty's target.
pub proof fn lemma_check_difficulty_is_meets_target(hash: Hash, difficulty: u64)
    requires
        difficulty > 0,
    ensures
        spec_check_difficulty(hash, difficulty) == Ok::<bool, DifficultyError>(
            spec_meets_target(hash, target_of(difficulty as nat)),
        ),
{
}

/// The solve time between two timestamps, in milliseconds: zero when the new
/// timestamp is not after the parent's, and at most twice the block time.
pub open spec fn solve_time_of(parent_timestamp: u128, new_timestamp: u128) -> nat {
    if new_timestamp <= parent_timestamp {
        0
    } else if new_timestamp - parent_timestamp > 2 * BLOCK_TIME_MILLIS {
        (2 * BLOCK_TIME_MILLIS) as nat
    } else {
        (new_timestamp - parent_timestamp) as nat
    }
}

/// `previous_difficulty * easypart / 10000`, saturated at `u64::MAX` and raised
/// to the minimum difficulty.
pub open spec fn scaled_difficulty(previous_difficulty: u64, easypart: u64) -> nat {
    let d = (previous_difficulty as nat * easypart as nat) / (EASYPART_SCALE as nat);
    if d < MINIMUM_DIFFICULTY {
        MINIMUM_DIFFICULTY as nat
    } else if d > u64::MAX {
        u64::MAX as nat
    } else {
        d
    }
}

/// The solve time between two timestamps, clamped to `[0, 2 * BLOCK_TIME_MILLIS]`.
pub fn solve_time(parent_timestamp: u128, new_timestamp: u128) -> (r: u128)
    ensures
        r == solve_time_of(parent_timestamp, new_timestamp),
        r <= 2 * BLOCK_TIME_MILLIS,
{
    if new_timestamp <= parent_timestamp {
        return 0;
    }
    let solve_time: u128 = new_timestamp - parent_timestamp;
    let limit: u128 = BLOCK_TIME_MILLIS as u128 * 2;
    if solve_time > limit {
        limit
    } else {
        solve_time
    }
}

/// Scales the previous difficulty by a retarget factor given in ten-thousandths.
pub fn scale_difficulty(previous_difficulty: u64, easypart: u64) -> (r: u64)
    ensures
        r == scaled_difficulty(previous_difficulty, easypart),
{
    proof {
        let p = previous_difficulty as nat;
        let e = easypart as nat;
        assert(p * e <= 0xffff_ffff_ffff_ffff * 0xffff_ffff_ffff_ffff) by (nonlinear_arith)
            requires
                p <= 0xffff_ffff_ffff_ffff,
                e <= 0xffff_ffff_ffff_ffff,
        ;
    }
    let product: u128 = previous_difficulty as u128 * easypart as u128;
    let diff: u128 = product / EASYPART_SCALE as u128;
    if diff < MINIMUM_DIFFICULTY as u128 {
        MINIMUM_DIFFICULTY
    } else if diff > u64::MAX as u128 {
        u64::MAX
    } else {
        diff as u64
    }
}

/// The difficulty of the next block. `easypart` gives the retarget factor,
/// scaled by 10000, of a clamped solve time (on the chain, the truncation of
/// `10000 * exp((1 - solve_time / BLOCK_TIME_MILLIS) / 8)`); the previous
/// difficulty is scaled by it.
pub fn calculate_difficulty<F: Fn(u128) -> u64>(
    parent_timestamp: u128,
    new_timestamp: u128,
    previous_difficulty: u64,
    easypart: F,
) -> (r: u64)
    requires
        forall|t: u128| t <= 2 * BLOCK_TIME_MILLIS ==> easypart.requires((t,)),
    ensures
        exists|e: u64|
            easypart.ensures((solve_time_of(parent_timestamp, new_timestamp) as u128,), e)
                && r == scaled_difficulty(previous_difficulty, e),
        r >= MINIMUM_DIFFICULTY,
{
    let solve_time = solve_time(parent_timestamp, new_timestamp);
    let factor = easypart(solve_time);
    scale_difficulty(previous_difficulty, factor)
}

/// A larger retarget factor never gives a lower difficulty, and no retarget
/// goes below the minimum.
pub proof fn lemma_scaled_difficulty_monotone(previous_difficulty: u64, e1: u64, e2: u64)
    requires
        e1 <= e2,
    ensures
        scaled_difficulty(previous_difficulty, e1) <= scaled_difficulty(previous_difficulty, e2),
        scaled_difficulty(previous_difficulty, e1) >= MINIMUM_DIFFICULTY,
{
    let p = previous_difficulty as nat;
    assert(p * e1 as nat <= p * e2 as nat) by (nonlinear_arith)
        requires
            e1 <= e2,
    ;
    vstd::arithmetic::div_mod::lemma_div_is_ordered(
        (p * e1 as nat) as int,
        (p * e2 as nat) as int,
        EASYPART_SCALE as int,
    );
}

/// A later new timestamp never gives a shorter solve time.
pub proof fn lemma_solve_time_monotone(parent_timestamp: u128, t1: u128, t2: u128)
    requires
        t1 <= t2,
    ensures
        solve_time_of(parent_timestamp, t1) <= solve_time_of(parent_timestamp, t2),
{
}

/// Solve times beyond twice the block time count as twice the block time.
pub proof fn lemma_solve_time_clamped(parent_timestamp: u128, new_timestamp: u128)
    requires
        new_timestamp >= parent_timestamp + 2 * BLOCK_TIME_MILLIS,
    ensures
        solve_time_of(parent_timestamp, new_timestamp) == solve_time_of(
            parent_timestamp,
            (parent_timestamp + 2 * BLOCK_TIME_MILLIS) as u128,
        ),
        solve_time_of(parent_timestamp, new_timestamp) == 2 * BLOCK_TIME_MILLIS,
{
}

} // verus!
