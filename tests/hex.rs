use xelis_miner::hex::{from_hex, to_hex};

#[test]
fn hex_encodes_lower_case() {
    assert_eq!(to_hex(&[0x00, 0xab, 0x1f, 0xff]), b"00ab1fff".to_vec());
    assert_eq!(to_hex(&[]), Vec::<u8>::new());
}

#[test]
fn hex_decodes_either_case() {
    assert_eq!(from_hex(b"00AB1fFf"), Some(vec![0x00, 0xab, 0x1f, 0xff]));
    assert_eq!(from_hex(b""), Some(vec![]));
}

#[test]
fn hex_refuses_bad_text() {
    assert_eq!(from_hex(b"abc"), None);
    assert_eq!(from_hex(b"zz"), None);
    assert_eq!(from_hex(b"0g"), None);
}

#[test]
fn hex_round_trip() {
    let bytes: Vec<u8> = (0..=255u8).collect();
    assert_eq!(from_hex(&to_hex(&bytes)), Some(bytes));
}
