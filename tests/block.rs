use xelis_miner::block::{read_u64_be, write_be, NONCE_OFFSET, TIMESTAMP_OFFSET};

#[test]
fn fields_are_big_endian() {
    let mut b = vec![0u8; 64];
    write_be(&mut b, NONCE_OFFSET, 8, 0x0102030405060708);
    assert_eq!(&b[24..32], &[1, 2, 3, 4, 5, 6, 7, 8]);
    assert_eq!(read_u64_be(&b, NONCE_OFFSET), 0x0102030405060708);
    write_be(&mut b, TIMESTAMP_OFFSET, 16, 0xff);
    assert_eq!(&b[8..24], &[0, 0, 0, 0, 0, 0, 0, 0, 0, 0, 0, 0, 0, 0, 0, 0xff]);
    assert_eq!(&b[24..32], &[1, 2, 3, 4, 5, 6, 7, 8]);
    assert!(b[..8].iter().all(|x| *x == 0));
    assert!(b[32..].iter().all(|x| *x == 0));
}
