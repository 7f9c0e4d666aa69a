use htlc_escrow::escrow::EscrowContract;
use htlc_escrow::hashing::keccak256;
use htlc_escrow::order_hash::canonical_encoding;
use htlc_escrow::types::{Address, AddressKind};

fn account(tag: u8) -> Address {
    Address { kind: AddressKind::Account, key: [tag; 32] }
}

fn contract(tag: u8) -> Address {
    Address { kind: AddressKind::Contract, key: [tag; 32] }
}

fn expected_address(address: &Address) -> Vec<u8> {
    let mut bytes: Vec<u8> = vec![0, 0, 0, 18];
    match address.kind {
        AddressKind::Account => bytes.extend_from_slice(&[0, 0, 0, 0, 0, 0, 0, 0]),
        AddressKind::Contract => bytes.extend_from_slice(&[0, 0, 0, 1]),
    }
    bytes.extend_from_slice(&address.key);
    bytes
}

fn expected_encoding(
    maker: &Address,
    taker: &Address,
    token: &Address,
    amount: i128,
    hashlock: &[u8; 32],
    timelocks: &[u64],
    is_src: bool,
) -> Vec<u8> {
    let mut expected: Vec<u8> = Vec::new();
    expected.extend_from_slice(&expected_address(maker));
    expected.extend_from_slice(&expected_address(taker));
    expected.extend_from_slice(&expected_address(token));
    expected.extend_from_slice(&[0, 0, 0, 10]);
    expected.extend_from_slice(&amount.to_be_bytes());
    expected.extend_from_slice(&[0, 0, 0, 13, 0, 0, 0, 32]);
    expected.extend_from_slice(hashlock);
    expected.extend_from_slice(&[0, 0, 0, 16, 0, 0, 0, 1]);
    expected.extend_from_slice(&(timelocks.len() as u32).to_be_bytes());
    for t in timelocks.iter() {
        expected.extend_from_slice(&[0, 0, 0, 5]);
        expected.extend_from_slice(&t.to_be_bytes());
    }
    expected.extend_from_slice(&[0, 0, 0, 0, 0, 0, 0, if is_src { 1 } else { 0 }]);
    expected
}

#[test]
fn canonical_encoding_lays_out_every_field_in_order() {
    let timelocks: Vec<u64> = vec![0, 100, 200, 300, 400];
    let bytes = canonical_encoding(&account(1), &account(2), &contract(3), 100, &[9u8; 32], &timelocks, true);

    let mut expected: Vec<u8> = Vec::new();
    // maker and taker: accounts
    for tag in [1u8, 2u8] {
        expected.extend_from_slice(&[0, 0, 0, 18, 0, 0, 0, 0, 0, 0, 0, 0]);
        expected.extend_from_slice(&[tag; 32]);
    }
    // token: a contract
    expected.extend_from_slice(&[0, 0, 0, 18, 0, 0, 0, 1]);
    expected.extend_from_slice(&[3u8; 32]);
    // amount
    expected.extend_from_slice(&[0, 0, 0, 10]);
    expected.extend_from_slice(&100i128.to_be_bytes());
    // hashlock
    expected.extend_from_slice(&[0, 0, 0, 13, 0, 0, 0, 32]);
    expected.extend_from_slice(&[9u8; 32]);
    // timelocks
    expected.extend_from_slice(&[0, 0, 0, 16, 0, 0, 0, 1, 0, 0, 0, 5]);
    for t in timelocks.iter() {
        expected.extend_from_slice(&[0, 0, 0, 5]);
        expected.extend_from_slice(&t.to_be_bytes());
    }
    // side
    expected.extend_from_slice(&[0, 0, 0, 0, 0, 0, 0, 1]);

    assert_eq!(bytes, expected);
    assert_eq!(bytes.len(), 44 + 44 + 40 + 20 + 40 + 12 + 5 * 12 + 8);
}

#[test]
fn wire_form_of_extreme_values() {
    let amounts: [i128; 9] = [
        0,
        1,
        -1,
        i128::MAX,
        i128::MIN,
        0x00ff_ffff_ffff_ffff,
        0x0100_0000_0000_0000,
        -0x0100_0000_0000_0001,
        0x0123_4567_89ab_cdef_0fed_cba9_8765_4321,
    ];
    let sequences: [Vec<u64>; 5] = [
        Vec::new(),
        vec![u64::MAX],
        vec![0x00ff_ffff_ffff_ffff, 0x0100_0000_0000_0000],
        vec![1, 2, 3, 4, 5, 6, 7],
        vec![u64::MAX, 0, 0x0102_0304_0506_0708, 255, 256, 1 << 63, 77],
    ];
    let mut hashlock = [0u8; 32];
    for (i, byte) in hashlock.iter_mut().enumerate() {
        *byte = (i as u8) * 8 + 1;
    }
    let mut key = [0u8; 32];
    for (i, byte) in key.iter_mut().enumerate() {
        *byte = 255 - i as u8;
    }
    let odd_account = Address { kind: AddressKind::Account, key };
    let odd_contract = Address { kind: AddressKind::Contract, key: hashlock };
    for amount in amounts.iter() {
        for timelocks in sequences.iter() {
            for is_src in [false, true] {
                let bytes =
                    canonical_encoding(&odd_contract, &odd_account, &contract(0), *amount, &hashlock, timelocks, is_src);
                let expected =
                    expected_encoding(&odd_contract, &odd_account, &contract(0), *amount, &hashlock, timelocks, is_src);
                assert_eq!(bytes, expected);
            }
        }
    }
}

#[test]
fn order_hash_is_the_digest_of_the_encoding() {
    let timelocks: Vec<u64> = vec![0, 100, 200, 300, 400];
    let encoding = canonical_encoding(&account(1), &account(2), &contract(3), 100, &[9u8; 32], &timelocks, true);
    let hash = EscrowContract::compute_order_hash(account(1), account(2), contract(3), 100, [9u8; 32], timelocks, true);
    assert_eq!(hash, keccak256(&encoding));
}

#[test]
fn different_parameters_give_different_encodings_and_hashes() {
    let base = (account(1), account(2), contract(3), 100i128, [9u8; 32], vec![0u64, 100, 200, 300, 400], true);
    let mut others = Vec::new();
    others.push((account(2), account(1), base.2, base.3, base.4, base.5.clone(), base.6));
    others.push((contract(1), base.1, base.2, base.3, base.4, base.5.clone(), base.6));
    others.push((base.0, base.1, contract(4), base.3, base.4, base.5.clone(), base.6));
    others.push((base.0, base.1, base.2, 101, base.4, base.5.clone(), base.6));
    others.push((base.0, base.1, base.2, base.3, [8u8; 32], base.5.clone(), base.6));
    others.push((base.0, base.1, base.2, base.3, base.4, vec![0, 100, 200, 300, 401], base.6));
    others.push((base.0, base.1, base.2, base.3, base.4, vec![0, 100, 200, 300], base.6));
    others.push((base.0, base.1, base.2, base.3, base.4, base.5.clone(), false));
    let encoding = canonical_encoding(&base.0, &base.1, &base.2, base.3, &base.4, &base.5, base.6);
    let hash = keccak256(&encoding);
    for other in others.iter() {
        let changed = canonical_encoding(&other.0, &other.1, &other.2, other.3, &other.4, &other.5, other.6);
        assert_ne!(changed, encoding);
        assert_ne!(keccak256(&changed), hash);
    }
}
