use htlc_escrow::hashing::keccak256;

#[test]
fn keccak256_of_empty_input() {
    let digest = keccak256(&Vec::new());
    let expected: [u8; 32] = [
        0xc5, 0xd2, 0x46, 0x01, 0x86, 0xf7, 0x23, 0x3c, 0x92, 0x7e, 0x7d, 0xb2, 0xdc, 0xc7, 0x03,
        0xc0, 0xe5, 0x00, 0xb6, 0x53, 0xca, 0x82, 0x27, 0x3b, 0x7b, 0xfa, 0xd8, 0x04, 0x5d, 0x85,
        0xa4, 0x70,
    ];
    assert_eq!(digest, expected);
}

#[test]
fn keccak256_of_longest_input() {
    let data = vec![7u8; 1_048_576];
    let first = keccak256(&data);
    let second = keccak256(&data);
    assert_eq!(first, second);
    assert_ne!(first, keccak256(&Vec::new()));
}
