use xelis_miner::bignum::BigNat;
use xelis_miner::difficulty::{
    calculate_difficulty, check_difficulty, difficulty_to_big, hash_to_big, meets_target,
    scale_difficulty, solve_time, DifficultyError, BLOCK_TIME_MILLIS, MINIMUM_DIFFICULTY,
};

fn chain_easypart(solve_time: u128) -> u64 {
    let e: f64 = 2.71828182845905;
    let m: f64 = 8.0;
    (e.powf((1.0 - solve_time as f64 / BLOCK_TIME_MILLIS as f64) / m) * 10000.0) as u64
}

fn digest(bytes: [u8; 32]) -> xelis_miner::difficulty::Hash {
    xelis_miner::difficulty::Hash::new(bytes)
}

#[test]
fn zero_difficulty_is_refused() {
    assert!(matches!(difficulty_to_big(0), Err(DifficultyError::DifficultyCannotBeZero)));
    assert!(matches!(
        check_difficulty(&digest([0; 32]), 0),
        Err(DifficultyError::DifficultyCannotBeZero)
    ));
}

#[test]
fn target_of_one_is_two_to_the_256() {
    let t = difficulty_to_big(1).unwrap();
    let mut expected = vec![1u8];
    expected.extend_from_slice(&[0u8; 32]);
    assert_eq!(t.be_bytes, expected);
}

#[test]
fn target_of_two_and_three() {
    let t = difficulty_to_big(2).unwrap();
    let mut expected = vec![0x80u8];
    expected.extend_from_slice(&[0u8; 31]);
    assert_eq!(t.be_bytes, expected);
    // floor(2^256 / 3) is 0x5555...55
    let t = difficulty_to_big(3).unwrap();
    assert_eq!(t.be_bytes, vec![0x55u8; 32]);
}

#[test]
fn target_of_large_difficulty() {
    // floor(2^256 / 2^63) = 2^193
    let t = difficulty_to_big(1u64 << 63).unwrap();
    let mut expected = vec![2u8];
    expected.extend_from_slice(&[0u8; 24]);
    assert_eq!(t.be_bytes, expected);
}

#[test]
fn digest_meets_target_at_equality() {
    let t = difficulty_to_big(3).unwrap();
    assert!(meets_target(&digest([0x55; 32]), &t));
    let mut above = [0x55u8; 32];
    above[31] = 0x56;
    assert!(!meets_target(&digest(above), &t));
    assert_eq!(check_difficulty(&digest([0x55; 32]), 3).unwrap(), true);
    assert_eq!(check_difficulty(&digest(above), 3).unwrap(), false);
}

#[test]
fn difficulty_one_accepts_every_digest() {
    assert_eq!(check_difficulty(&digest([0xff; 32]), 1).unwrap(), true);
    assert_eq!(check_difficulty(&digest([0; 32]), u64::MAX).unwrap(), true);
    assert_eq!(check_difficulty(&digest([0xff; 32]), 2).unwrap(), false);
}

#[test]
fn meets_target_compares_numbers_not_lengths() {
    let short = BigNat { be_bytes: vec![0, 0, 1] };
    let mut one = [0u8; 32];
    one[31] = 1;
    assert!(meets_target(&digest(one), &short));
    one[31] = 2;
    assert!(!meets_target(&digest(one), &short));
    assert!(!meets_target(&digest(one), &BigNat { be_bytes: vec![] }));
}

#[test]
fn hash_to_big_keeps_bytes() {
    let mut b = [0u8; 32];
    b[0] = 9;
    b[31] = 7;
    assert_eq!(hash_to_big(&digest(b)).be_bytes, b.to_vec());
    let t = BigNat { be_bytes: vec![9] };
    assert!(!hash_to_big(&digest(b)).le(&t));
    assert!(t.le(&hash_to_big(&digest(b))));
}

#[test]
fn solve_time_is_clamped() {
    assert_eq!(solve_time(100, 100 + 5000), 5000);
    assert_eq!(solve_time(100, 100 + 10 * BLOCK_TIME_MILLIS as u128), 2 * BLOCK_TIME_MILLIS as u128);
    assert_eq!(solve_time(100, 50), 0);
}

#[test]
fn on_target_solve_time_keeps_difficulty() {
    let d = calculate_difficulty(0, BLOCK_TIME_MILLIS as u128, 1000, chain_easypart);
    assert_eq!(d, 1000);
}

#[test]
fn slow_solves_clamp_at_twice_the_block_time() {
    let t = BLOCK_TIME_MILLIS as u128;
    let far = calculate_difficulty(7, 7 + 10 * t, 500_000, chain_easypart);
    let two = calculate_difficulty(7, 7 + 2 * t, 500_000, chain_easypart);
    assert_eq!(far, two);
    assert!(far < 500_000);
}

#[test]
fn slower_solves_never_raise_difficulty() {
    let mut last = u64::MAX;
    let mut st: u128 = 0;
    while st <= 3 * BLOCK_TIME_MILLIS as u128 {
        let d = calculate_difficulty(1000, 1000 + st, 1_000_000, chain_easypart);
        assert!(d <= last);
        assert!(d >= MINIMUM_DIFFICULTY);
        last = d;
        st += 250;
    }
    // a fast solve raises the difficulty
    assert!(calculate_difficulty(0, 0, 1_000_000, chain_easypart) > 1_000_000);
}

#[test]
fn scale_difficulty_exact_values() {
    assert_eq!(scale_difficulty(1000, 10000), 1000);
    assert_eq!(scale_difficulty(1000, 8824), 882);
    assert_eq!(scale_difficulty(0, 10000), MINIMUM_DIFFICULTY);
    assert_eq!(scale_difficulty(u64::MAX, 11331), u64::MAX);
    assert_eq!(calculate_difficulty(0, 1, 12345, |_| 20000), 24690);
}
