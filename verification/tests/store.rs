use htlc_escrow::error::EscrowError;
use htlc_escrow::escrow::EscrowContract;
use htlc_escrow::record::{Escrow, HashLock};
use htlc_escrow::store::EscrowStore;
use htlc_escrow::types::{Address, AddressKind};

fn who(tag: u8) -> Address {
    Address { kind: AddressKind::Account, key: [tag; 32] }
}

fn record() -> Escrow {
    Escrow::open(who(1), who(2), who(3), 100, 10, [4; 32], &vec![0, 100, 200, 300, 400], true, [0; 32], 2).unwrap()
}

fn key_of(record: &Escrow) -> [u8; 32] {
    EscrowContract::compute_order_hash(
        record.maker,
        record.taker,
        record.token,
        record.amount,
        record.hashlock.value,
        record.timelocks.clone(),
        record.is_src,
    )
}

#[test]
fn new_record_is_open() {
    let made = record();
    assert_eq!(
        made,
        Escrow {
            maker: who(1),
            taker: who(2),
            token: who(3),
            amount: 100,
            safety_deposit: 10,
            hashlock: HashLock { value: [4; 32] },
            timelocks: vec![0, 100, 200, 300, 400],
            claimed: false,
            cancelled: false,
            is_src: true,
            merkle_root: [0; 32],
            parts: 2,
            used_parts: vec![false, false],
        }
    );
    assert!(made.is_well_formed());
    assert_eq!(made.duplicate(), made);
    assert_eq!(made.private_actor(), who(2));
}

#[test]
fn malformed_records_are_recognised() {
    let mut both = record();
    both.claimed = true;
    both.cancelled = true;
    assert!(!both.is_well_formed());
    let mut short = record();
    short.used_parts.pop();
    assert!(!short.is_well_formed());
    let mut unsorted = record();
    unsorted.timelocks[4] = 250;
    assert!(!unsorted.is_well_formed());
    let mut empty = record();
    empty.amount = 0;
    assert!(!empty.is_well_formed());
    let mut large = record();
    large.amount = i128::MAX;
    assert!(!large.is_well_formed());
    let mut claimed = record();
    claimed.claimed = true;
    assert!(claimed.is_well_formed());
    assert_eq!(
        Escrow::open(who(1), who(2), who(3), 100, 10, [4; 32], &vec![0, 100, 200, 300, 400], true, [0; 32], 0),
        Err(EscrowError::ValidationError)
    );
    assert_eq!(
        Escrow::open(who(1), who(2), who(3), i128::MAX, 1, [4; 32], &vec![0, 1, 2, 3, 4], true, [0; 32], 1),
        Err(EscrowError::AmountOverflow)
    );
}

#[test]
fn store_takes_in_only_sound_records() {
    let made = record();
    let key = key_of(&made);

    let mut store = EscrowStore::new();
    assert!(!store.contains(&key));
    assert!(!store.was_used(&key));
    assert!(store.get(&key).is_none());

    assert!(!store.restore([9; 32], Some(made.duplicate())));
    let mut broken = made.duplicate();
    broken.used_parts.push(false);
    assert!(!store.restore(key, Some(broken)));
    assert!(!store.was_used(&key));

    assert!(store.restore(key, Some(made.duplicate())));
    assert!(store.contains(&key));
    assert!(store.was_used(&key));
    assert_eq!(store.get(&key), Some(made.duplicate()));
    assert!(!store.restore(key, Some(made.duplicate())));
    assert!(!store.restore(key, None));

    assert!(store.restore([9; 32], None));
    assert!(!store.contains(&[9; 32]));
    assert!(store.was_used(&[9; 32]));
    assert!(store.get(&[9; 32]).is_none());
    assert_eq!(
        EscrowContract::cancel(&mut store, 1000, &who(2), [9; 32]).unwrap_err(),
        EscrowError::AlreadyFinalized
    );
    assert!(EscrowContract::cancel(&mut store, 1000, &who(2), key).is_ok());
    assert!(store.get(&key).unwrap().cancelled);
}
