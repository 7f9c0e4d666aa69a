use htlc_escrow::error::EscrowError;
use htlc_escrow::escrow::EscrowContract;
use htlc_escrow::fills::{reveal_secret, use_part};
use htlc_escrow::hashing::keccak256;
use htlc_escrow::merkle::verify;
use htlc_escrow::store::EscrowStore;
use htlc_escrow::types::{Address, AddressKind};

fn pair(left: &[u8; 32], right: &[u8; 32]) -> [u8; 32] {
    let mut data = left.to_vec();
    data.extend_from_slice(right);
    keccak256(&data)
}

fn part_secret(i: u8) -> Vec<u8> {
    vec![b's', b'e', b'c', b'r', b'e', b't', i]
}

struct Tree {
    leaves: Vec<[u8; 32]>,
    root: [u8; 32],
}

fn four_part_tree() -> Tree {
    let leaves: Vec<[u8; 32]> = (0u8..4).map(|i| keccak256(&part_secret(i))).collect();
    let left = pair(&leaves[0], &leaves[1]);
    let right = pair(&leaves[2], &leaves[3]);
    Tree { root: pair(&left, &right), leaves }
}

fn proof_for(tree: &Tree, index: usize) -> Vec<[u8; 32]> {
    let left = pair(&tree.leaves[0], &tree.leaves[1]);
    let right = pair(&tree.leaves[2], &tree.leaves[3]);
    let sibling = tree.leaves[index ^ 1];
    let uncle = if index < 2 { right } else { left };
    vec![sibling, uncle]
}

#[test]
fn honest_proofs_are_accepted() {
    let tree = four_part_tree();
    for index in 0..4usize {
        let proof = proof_for(&tree, index);
        assert!(verify(&proof, &tree.root, &tree.leaves[index], index as u32));
    }
}

#[test]
fn empty_proof_accepts_only_the_root_itself() {
    let tree = four_part_tree();
    assert!(verify(&Vec::new(), &tree.root, &tree.root, 0));
    assert!(!verify(&Vec::new(), &tree.root, &tree.leaves[0], 0));
    assert!(!verify(&Vec::new(), &tree.root, &tree.root, 1));
}

#[test]
fn any_changed_bit_is_refused() {
    let tree = four_part_tree();
    let proof = proof_for(&tree, 2);
    let leaf = tree.leaves[2];

    let mut other_leaf = leaf;
    other_leaf[0] ^= 1;
    assert!(!verify(&proof, &tree.root, &other_leaf, 2));

    for level in 0..proof.len() {
        let mut other_proof = proof.clone();
        other_proof[level][31] ^= 0x80;
        assert!(!verify(&other_proof, &tree.root, &leaf, 2));
    }

    for index in [0u32, 1, 3] {
        assert!(!verify(&proof, &tree.root, &leaf, index));
    }

    let mut other_root = tree.root;
    other_root[7] ^= 4;
    assert!(!verify(&proof, &other_root, &leaf, 2));
}

#[test]
fn malformed_proofs_fail_closed() {
    let tree = four_part_tree();
    let proof = proof_for(&tree, 2);
    let leaf = tree.leaves[2];
    assert!(!verify(&proof, &tree.root, &leaf, 4));
    assert!(!verify(&proof, &tree.root, &leaf, 6));
    assert!(!verify(&proof, &tree.root, &leaf, u32::MAX));
    let long: Vec<[u8; 32]> = vec![[0u8; 32]; 32];
    assert!(!verify(&long, &tree.root, &leaf, 0));
    let longest: Vec<[u8; 32]> = vec![[0u8; 32]; 31];
    assert!(!verify(&longest, &tree.root, &leaf, 0x7fff_ffff));
    let short = vec![proof[0]];
    assert!(!verify(&short, &tree.root, &leaf, 0));
    assert!(!verify(&short, &tree.root, &leaf, 2));
    let mut appended = proof.clone();
    appended.push(tree.leaves[0]);
    assert!(!verify(&appended, &tree.root, &leaf, 2));
    assert!(!verify(&appended, &tree.root, &leaf, 6));
    let dropped_first = vec![proof[1]];
    assert!(!verify(&dropped_first, &tree.root, &leaf, 1));
}

#[test]
fn secret_opens_only_its_hashlock() {
    let secret = b"s3cr3t".to_vec();
    let hashlock = keccak256(&secret);
    assert!(reveal_secret(&secret, &hashlock));
    assert!(!reveal_secret(&b"s3cr3T".to_vec(), &hashlock));
    assert!(!reveal_secret(&secret, &[0u8; 32]));
    assert!(!reveal_secret(&hashlock.to_vec(), &hashlock));
}

#[test]
fn part_is_filled_once() {
    let tree = four_part_tree();
    let mut used = vec![false; 4];
    let proof = proof_for(&tree, 2);
    assert_eq!(use_part(&mut used, &proof, &tree.root, &tree.leaves[2], 2), Ok(()));
    assert_eq!(used, vec![false, false, true, false]);

    let again = use_part(&mut used, &proof, &tree.root, &tree.leaves[2], 2);
    assert_eq!(again, Err(EscrowError::PartAlreadyUsed));
    let fresh_proof = proof_for(&tree, 2);
    let again = use_part(&mut used, &fresh_proof, &tree.root, &tree.leaves[2], 2);
    assert_eq!(again, Err(EscrowError::PartAlreadyUsed));
    assert_eq!(used, vec![false, false, true, false]);

    assert_eq!(use_part(&mut used, &proof_for(&tree, 3), &tree.root, &tree.leaves[3], 3), Ok(()));
    assert_eq!(used, vec![false, false, true, true]);
}

#[test]
fn refused_fill_changes_nothing() {
    let tree = four_part_tree();
    let mut used = vec![false; 4];
    let proof = proof_for(&tree, 2);
    assert_eq!(use_part(&mut used, &proof, &tree.root, &tree.leaves[2], 4), Err(EscrowError::InvalidFillIndex));
    assert_eq!(use_part(&mut used, &proof, &tree.root, &tree.leaves[1], 2), Err(EscrowError::InvalidMerkleProof));
    assert_eq!(use_part(&mut used, &proof, &tree.root, &tree.leaves[2], 1), Err(EscrowError::InvalidMerkleProof));
    assert_eq!(used, vec![false; 4]);
}

fn party(tag: u8) -> Address {
    Address { kind: AddressKind::Account, key: [tag; 32] }
}

fn create_four_parts(store: &mut EscrowStore, tree: &Tree) -> [u8; 32] {
    EscrowContract::create_escrow(
        store,
        &party(1),
        party(1),
        party(2),
        Address { kind: AddressKind::Contract, key: [3; 32] },
        100,
        10,
        [0u8; 32],
        vec![0, 100, 200, 300, 400],
        true,
        tree.root,
        4,
    )
    .unwrap()
    .order_hash
}

#[test]
fn four_part_escrow_fills_a_part_with_its_proof() {
    let tree = four_part_tree();
    let mut store = EscrowStore::new();
    let key = create_four_parts(&mut store, &tree);

    let out_of_range = EscrowContract::withdraw(&mut store, 150, &party(2), key, part_secret(2), proof_for(&tree, 2), 4);
    assert_eq!(out_of_range.unwrap_err(), EscrowError::InvalidFillIndex);
    let wrong_secret = EscrowContract::withdraw(&mut store, 150, &party(2), key, part_secret(1), proof_for(&tree, 2), 2);
    assert_eq!(wrong_secret.unwrap_err(), EscrowError::InvalidMerkleProof);
    let wrong_proof = EscrowContract::withdraw(&mut store, 150, &party(2), key, part_secret(2), proof_for(&tree, 0), 2);
    assert_eq!(wrong_proof.unwrap_err(), EscrowError::InvalidMerkleProof);
    let before = EscrowContract::get_escrow_info(&store, key).unwrap();
    assert_eq!(before.used_parts, vec![false; 4]);
    assert!(!before.claimed);

    let done = EscrowContract::withdraw(&mut store, 150, &party(2), key, part_secret(2), proof_for(&tree, 2), 2).unwrap();
    assert_eq!(done.claimed.merkle_root, tree.root);
    assert_eq!(done.claimed.parts, 4);
    let after = EscrowContract::get_escrow_info(&store, key).unwrap();
    assert_eq!(after.used_parts, vec![false, false, true, false]);
    assert!(after.claimed);

    let again = EscrowContract::withdraw(&mut store, 150, &party(2), key, part_secret(2), proof_for(&tree, 2), 2);
    assert_eq!(again.unwrap_err(), EscrowError::AlreadyFinalized);
}

#[test]
fn used_part_of_an_open_record_is_refused() {
    let tree = four_part_tree();
    let mut store = EscrowStore::new();
    let key = create_four_parts(&mut store, &tree);
    let mut record = EscrowContract::get_escrow_info(&store, key).unwrap();
    record.used_parts[2] = true;
    let again = record.withdraw(150, &party(2), &part_secret(2), &proof_for(&tree, 2), 2);
    assert_eq!(again.unwrap_err(), EscrowError::PartAlreadyUsed);
    let public = record.public_withdraw(250, &part_secret(2), &proof_for(&tree, 2), 2, &party(9));
    assert_eq!(public.unwrap_err(), EscrowError::PartAlreadyUsed);
    let other = record.public_withdraw(250, &part_secret(3), &proof_for(&tree, 3), 3, &party(9)).unwrap();
    assert_eq!(other.safety_deposit.to, party(9));
    assert_eq!(record.used_parts, vec![false, false, true, true]);
    assert!(record.claimed);
}

#[test]
fn hashlock_is_not_looked_at_for_several_parts() {
    let tree = four_part_tree();
    let mut store = EscrowStore::new();
    let key = create_four_parts(&mut store, &tree);
    let done = EscrowContract::public_withdraw(&mut store, 250, key, part_secret(0), proof_for(&tree, 0), 0, party(9));
    assert!(done.is_ok());
}
