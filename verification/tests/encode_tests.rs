use token_ledger::address::Address;
use token_ledger::encode::{
    encode_length_prefixed, encode_packed, fingerprint, packed_fingerprint, safe_encode,
    safe_encode_packed_fixed_types, safe_encode_packed_with_delimiter,
};
use token_ledger::uint256::Uint256;

#[test]
fn test_encode_packed_concatenates() {
    let a = vec![1u8, 2u8];
    let b = vec![3u8];
    assert_eq!(encode_packed(&a, &b), vec![1u8, 2u8, 3u8]);
}

#[test]
fn test_packed_fingerprint_collides_on_shifted_boundary() {
    // the packed bytes of ("a", "bc") and ("ab", "c") are identical,
    // so their fingerprints collide: the defect the safe encodings close.
    let r1 = packed_fingerprint(&b"a".to_vec(), &b"bc".to_vec());
    let r2 = packed_fingerprint(&b"ab".to_vec(), &b"c".to_vec());
    assert_eq!(r1, r2);
    assert_eq!(r1.len(), 32);
}

#[test]
fn test_packed_fingerprint_of_empty_is_keccak_of_empty() {
    // the Keccak-256 digest of the empty input, as published everywhere
    let expected: [u8; 32] = [
        0xc5, 0xd2, 0x46, 0x01, 0x86, 0xf7, 0x23, 0x3c, 0x92, 0x7e, 0x7d, 0xb2, 0xdc, 0xc7, 0x03,
        0xc0, 0xe5, 0x00, 0xb6, 0x53, 0xca, 0x82, 0x27, 0x3b, 0x7b, 0xfa, 0xd8, 0x04, 0x5d, 0x85,
        0xa4, 0x70,
    ];
    let r = packed_fingerprint(&Vec::new(), &Vec::new());
    assert_eq!(r.as_slice(), expected.as_slice());
}

#[test]
fn test_length_prefixed_distinguishes_shifted_boundary() {
    let e1 = encode_length_prefixed(&b"a".to_vec(), &b"bc".to_vec());
    let e2 = encode_length_prefixed(&b"ab".to_vec(), &b"c".to_vec());
    assert_ne!(e1, e2);
    let r1 = fingerprint(&b"a".to_vec(), &b"bc".to_vec());
    let r2 = fingerprint(&b"ab".to_vec(), &b"c".to_vec());
    assert_ne!(r1, r2);
    assert_eq!(r1.len(), 32);
    assert_eq!(r2.len(), 32);
}

#[test]
fn test_length_prefixed_layout() {
    let e = encode_length_prefixed(&vec![1u8, 2u8], &vec![3u8]);
    assert_eq!(
        e,
        vec![0u8, 0, 0, 0, 0, 0, 0, 2, 1, 2, 0, 0, 0, 0, 0, 0, 0, 1, 3]
    );
}

#[test]
fn test_delimited_layout() {
    let e = safe_encode_packed_with_delimiter(&vec![7u8, 8u8], &vec![9u8]);
    assert_eq!(e, vec![7u8, 8, 0, 9]);
}

#[test]
fn test_safe_encode_distinguishes_shifted_boundary() {
    let e1 = safe_encode(&"a".to_string(), &"bc".to_string());
    let e2 = safe_encode(&"ab".to_string(), &"c".to_string());
    assert_ne!(e1, e2);
    // two offset words, then each string as a length word plus one padded word
    assert_eq!(e1.len(), 192);
    assert_eq!(e2.len(), 192);
}

#[test]
fn test_fixed_types_layout() {
    let addr = Address::from_parts(0x01020304, 5);
    let amount = Uint256 { lo: 6, hi: 0 };
    let e = safe_encode_packed_fixed_types(addr, amount);
    assert_eq!(e.len(), 52);
    assert_eq!(&e[0..4], &[1u8, 2, 3, 4]);
    assert_eq!(e[19], 5u8);
    assert_eq!(&e[4..19], &[0u8; 15]);
    assert_eq!(e[51], 6u8);
    assert_eq!(&e[20..51], &[0u8; 31]);
}
