use htlc_escrow::error::EscrowError;
use htlc_escrow::escrow::EscrowContract;
use htlc_escrow::hashing::keccak256;
use htlc_escrow::store::EscrowStore;
use htlc_escrow::types::{Address, AddressKind};

fn account(tag: u8) -> Address {
    Address { kind: AddressKind::Account, key: [tag; 32] }
}

fn contract(tag: u8) -> Address {
    Address { kind: AddressKind::Contract, key: [tag; 32] }
}

fn maker() -> Address {
    account(1)
}

fn taker() -> Address {
    account(2)
}

fn asset() -> Address {
    contract(3)
}

fn executor() -> Address {
    account(9)
}

fn secret() -> Vec<u8> {
    b"s3cr3t".to_vec()
}

fn deadlines() -> Vec<u64> {
    vec![0, 100, 200, 300, 400]
}

fn create(store: &mut EscrowStore, is_src: bool) -> [u8; 32] {
    let hashlock = keccak256(&secret());
    let creation = EscrowContract::create_escrow(
        store,
        &maker(),
        maker(),
        taker(),
        asset(),
        100,
        10,
        hashlock,
        deadlines(),
        is_src,
        [0u8; 32],
        1,
    )
    .expect("valid parameters");
    creation.order_hash
}

#[test]
fn created_escrow_is_open_with_unused_parts() {
    let mut store = EscrowStore::new();
    let hashlock = keccak256(&secret());
    let creation = EscrowContract::create_escrow(
        &mut store,
        &maker(),
        maker(),
        taker(),
        asset(),
        100,
        10,
        hashlock,
        deadlines(),
        true,
        [7u8; 32],
        4,
    )
    .unwrap();
    assert_eq!(creation.funder, maker());
    assert_eq!(creation.total, 110);
    assert_eq!(creation.created.order_hash, creation.order_hash);
    assert_eq!(creation.created.timelocks, deadlines());
    assert_eq!(creation.created.parts, 4);

    assert!(EscrowContract::escrow_exists(&store, creation.order_hash));
    let info = EscrowContract::get_escrow_info(&store, creation.order_hash).unwrap();
    assert!(!info.claimed);
    assert!(!info.cancelled);
    assert_eq!(info.used_parts, vec![false, false, false, false]);
    assert_eq!(info.parts, 4);
    assert_eq!(info.amount, 100);
    assert_eq!(info.safety_deposit, 10);
    assert_eq!(info.hashlock.value, hashlock);
    assert_eq!(info.merkle_root, [7u8; 32]);
    assert_eq!(info.timelocks, deadlines());
    assert!(info.is_src);
}

fn same(a: &Address, b: &Address) -> bool {
    a.kind == b.kind && a.key == b.key
}

#[test]
fn order_hash_is_the_hash_of_the_parameters() {
    let mut store = EscrowStore::new();
    let key = create(&mut store, true);
    let hashlock = keccak256(&secret());
    let computed = EscrowContract::compute_order_hash(maker(), taker(), asset(), 100, hashlock, deadlines(), true);
    assert_eq!(key, computed);
    let other_side = EscrowContract::compute_order_hash(maker(), taker(), asset(), 100, hashlock, deadlines(), false);
    assert_ne!(key, other_side);
    let other_amount = EscrowContract::compute_order_hash(maker(), taker(), asset(), 101, hashlock, deadlines(), true);
    assert_ne!(key, other_amount);
}

#[test]
fn private_withdrawal_scenario() {
    let mut store = EscrowStore::new();
    let key = create(&mut store, true);

    let early = EscrowContract::withdraw(&mut store, 50, &taker(), key, secret(), Vec::new(), 0);
    assert_eq!(early.unwrap_err(), EscrowError::StageNotReached);
    assert!(!EscrowContract::get_escrow_info(&store, key).unwrap().claimed);

    let done = EscrowContract::withdraw(&mut store, 150, &taker(), key, secret(), Vec::new(), 0).unwrap();
    assert!(same(&done.settlement.principal.to, &taker()));
    assert_eq!(done.settlement.principal.amount, 100);
    assert!(same(&done.settlement.safety_deposit.to, &maker()));
    assert_eq!(done.settlement.safety_deposit.amount, 10);
    assert_eq!(done.claimed.order_hash, key);
    assert_eq!(done.claimed.preimage, secret());
    assert_eq!(done.claimed.amount, 100);
    assert!(same(&done.claimed.recipient, &taker()));
    assert_eq!(done.safety.amount, 10);
    assert!(same(&done.safety.executor, &maker()));

    let info = EscrowContract::get_escrow_info(&store, key).unwrap();
    assert!(info.claimed);
    assert!(!info.cancelled);

    let late = EscrowContract::cancel(&mut store, 350, &taker(), key);
    assert_eq!(late.unwrap_err(), EscrowError::AlreadyFinalized);
}

#[test]
fn public_withdrawal_scenario() {
    let mut store = EscrowStore::new();
    let key = create(&mut store, true);

    let early = EscrowContract::public_withdraw(&mut store, 150, key, secret(), Vec::new(), 0, executor());
    assert_eq!(early.unwrap_err(), EscrowError::StageNotReached);

    let done = EscrowContract::public_withdraw(&mut store, 250, key, secret(), Vec::new(), 0, executor()).unwrap();
    assert!(same(&done.settlement.principal.to, &taker()));
    assert_eq!(done.settlement.principal.amount, 100);
    assert!(same(&done.settlement.safety_deposit.to, &executor()));
    assert_eq!(done.settlement.safety_deposit.amount, 10);
    assert!(same(&done.safety.executor, &executor()));
    assert_eq!(done.claimed.merkle_root, [0u8; 32]);
    assert_eq!(done.claimed.parts, 0);
    assert!(EscrowContract::get_escrow_info(&store, key).unwrap().claimed);
}

#[test]
fn second_withdrawal_is_refused_as_final() {
    let mut store = EscrowStore::new();
    let key = create(&mut store, true);
    EscrowContract::withdraw(&mut store, 150, &taker(), key, secret(), Vec::new(), 0).unwrap();
    let again = EscrowContract::withdraw(&mut store, 150, &taker(), key, secret(), Vec::new(), 0);
    assert_eq!(again.unwrap_err(), EscrowError::AlreadyFinalized);
    let public = EscrowContract::public_withdraw(&mut store, 250, key, secret(), Vec::new(), 0, executor());
    assert_eq!(public.unwrap_err(), EscrowError::AlreadyFinalized);
}

#[test]
fn withdrawal_windows_are_half_open() {
    let mut store = EscrowStore::new();
    let key = create(&mut store, true);
    let at_99 = EscrowContract::withdraw(&mut store, 99, &taker(), key, secret(), Vec::new(), 0);
    assert_eq!(at_99.unwrap_err(), EscrowError::StageNotReached);
    let at_300 = EscrowContract::withdraw(&mut store, 300, &taker(), key, secret(), Vec::new(), 0);
    assert_eq!(at_300.unwrap_err(), EscrowError::StageExpired);
    let at_400 = EscrowContract::public_withdraw(&mut store, 400, key, secret(), Vec::new(), 0, executor());
    assert_eq!(at_400.unwrap_err(), EscrowError::StageExpired);
    let at_199 = EscrowContract::public_withdraw(&mut store, 199, key, secret(), Vec::new(), 0, executor());
    assert_eq!(at_199.unwrap_err(), EscrowError::StageNotReached);
    assert!(EscrowContract::withdraw(&mut store, 100, &taker(), key, secret(), Vec::new(), 0).is_ok());

    let mut other = EscrowStore::new();
    let key = create(&mut other, true);
    assert!(EscrowContract::withdraw(&mut other, 299, &taker(), key, secret(), Vec::new(), 0).is_ok());

    let mut third = EscrowStore::new();
    let key = create(&mut third, true);
    assert!(EscrowContract::public_withdraw(&mut third, 399, key, secret(), Vec::new(), 0, executor()).is_ok());
}

#[test]
fn withdrawal_needs_the_taker_and_the_secret() {
    let mut store = EscrowStore::new();
    let key = create(&mut store, true);
    let stranger = EscrowContract::withdraw(&mut store, 150, &maker(), key, secret(), Vec::new(), 0);
    assert_eq!(stranger.unwrap_err(), EscrowError::Unauthorized);
    let wrong = EscrowContract::withdraw(&mut store, 150, &taker(), key, b"wrong".to_vec(), Vec::new(), 0);
    assert_eq!(wrong.unwrap_err(), EscrowError::InvalidPreimage);
    let info = EscrowContract::get_escrow_info(&store, key).unwrap();
    assert!(!info.claimed);
    let unknown = EscrowContract::withdraw(&mut store, 150, &taker(), [5u8; 32], secret(), Vec::new(), 0);
    assert_eq!(unknown.unwrap_err(), EscrowError::NotFound);
}

#[test]
fn destination_leg_pays_the_maker_and_refunds_the_taker() {
    let mut store = EscrowStore::new();
    let key = create(&mut store, false);
    let done = EscrowContract::withdraw(&mut store, 150, &taker(), key, secret(), Vec::new(), 0).unwrap();
    assert!(same(&done.settlement.principal.to, &maker()));
    assert!(same(&done.settlement.safety_deposit.to, &maker()));

    let mut other = EscrowStore::new();
    let key = create(&mut other, false);
    let refund = EscrowContract::cancel(&mut other, 300, &taker(), key).unwrap();
    assert!(same(&refund.settlement.principal.to, &taker()));
    assert_eq!(refund.settlement.principal.amount, 100);
    assert!(same(&refund.settlement.safety_deposit.to, &maker()));
    assert_eq!(refund.settlement.safety_deposit.amount, 10);
    assert!(refund.safety.is_none());
    assert!(EscrowContract::get_escrow_info(&other, key).unwrap().cancelled);

    let public = EscrowContract::public_cancel(&mut other, 500, key, executor());
    assert_eq!(public.unwrap_err(), EscrowError::AlreadyFinalized);

    let mut third = EscrowStore::new();
    let key = create(&mut third, false);
    let wrong_leg = EscrowContract::public_cancel(&mut third, 500, key, executor());
    assert_eq!(wrong_leg.unwrap_err(), EscrowError::Unauthorized);
}

#[test]
fn cancellation_on_the_source_leg() {
    let mut store = EscrowStore::new();
    let key = create(&mut store, true);
    let early = EscrowContract::cancel(&mut store, 299, &taker(), key);
    assert_eq!(early.unwrap_err(), EscrowError::StageNotReached);
    let stranger = EscrowContract::cancel(&mut store, 300, &maker(), key);
    assert_eq!(stranger.unwrap_err(), EscrowError::Unauthorized);
    let refund = EscrowContract::cancel(&mut store, 1_000_000, &taker(), key).unwrap();
    assert!(same(&refund.settlement.principal.to, &maker()));
    assert!(same(&refund.settlement.safety_deposit.to, &maker()));
    assert_eq!(refund.refunded.order_hash, key);
    assert_eq!(refund.refunded.amount, 100);
    assert_eq!(refund.refunded.parts, 0);
    let again = EscrowContract::cancel(&mut store, 1_000_000, &taker(), key);
    assert_eq!(again.unwrap_err(), EscrowError::AlreadyFinalized);
    let withdraw = EscrowContract::withdraw(&mut store, 150, &taker(), key, secret(), Vec::new(), 0);
    assert_eq!(withdraw.unwrap_err(), EscrowError::AlreadyFinalized);
}

#[test]
fn public_cancellation_deletes_the_record() {
    let mut store = EscrowStore::new();
    let key = create(&mut store, true);
    let early = EscrowContract::public_cancel(&mut store, 399, key, executor());
    assert_eq!(early.unwrap_err(), EscrowError::StageNotReached);
    let refund = EscrowContract::public_cancel(&mut store, 400, key, executor()).unwrap();
    assert!(same(&refund.settlement.principal.to, &maker()));
    assert_eq!(refund.settlement.principal.amount, 100);
    assert!(same(&refund.settlement.safety_deposit.to, &executor()));
    assert_eq!(refund.settlement.safety_deposit.amount, 10);
    assert!(same(&refund.safety.unwrap().executor, &executor()));
    assert_eq!(refund.refunded.parts, 1);

    assert!(!EscrowContract::escrow_exists(&store, key));
    assert!(EscrowContract::get_escrow_info(&store, key).is_none());
    assert_eq!(EscrowContract::get_current_stage(&store, 10, key).unwrap_err(), EscrowError::NotFound);

    let withdraw = EscrowContract::withdraw(&mut store, 150, &taker(), key, secret(), Vec::new(), 0);
    assert_eq!(withdraw.unwrap_err(), EscrowError::AlreadyFinalized);
    let cancel = EscrowContract::cancel(&mut store, 500, &taker(), key);
    assert_eq!(cancel.unwrap_err(), EscrowError::AlreadyFinalized);
    let again = EscrowContract::public_cancel(&mut store, 500, key, executor());
    assert_eq!(again.unwrap_err(), EscrowError::AlreadyFinalized);

    let hashlock = keccak256(&secret());
    let recreate = EscrowContract::create_escrow(
        &mut store,
        &maker(),
        maker(),
        taker(),
        asset(),
        100,
        10,
        hashlock,
        deadlines(),
        true,
        [0u8; 32],
        1,
    );
    assert_eq!(recreate.unwrap_err(), EscrowError::AlreadyExists);
}

#[test]
fn creation_is_validated() {
    let hashlock = keccak256(&secret());
    let mut store = EscrowStore::new();
    let attempt = |store: &mut EscrowStore, caller: Address, amount: i128, deposit: i128, timelocks: Vec<u64>, parts: u32| {
        EscrowContract::create_escrow(
            store,
            &caller,
            maker(),
            taker(),
            asset(),
            amount,
            deposit,
            hashlock,
            timelocks,
            true,
            [0u8; 32],
            parts,
        )
        .map(|c| c.order_hash)
    };
    assert_eq!(attempt(&mut store, maker(), 0, 10, deadlines(), 1).unwrap_err(), EscrowError::ValidationError);
    assert_eq!(attempt(&mut store, maker(), -5, 10, deadlines(), 1).unwrap_err(), EscrowError::ValidationError);
    assert_eq!(attempt(&mut store, maker(), 100, 0, deadlines(), 1).unwrap_err(), EscrowError::ValidationError);
    assert_eq!(attempt(&mut store, maker(), 100, 10, vec![0, 100, 200, 300], 1).unwrap_err(), EscrowError::ValidationError);
    assert_eq!(
        attempt(&mut store, maker(), 100, 10, vec![0, 100, 200, 300, 400, 500], 1).unwrap_err(),
        EscrowError::ValidationError
    );
    assert_eq!(
        attempt(&mut store, maker(), 100, 10, vec![0, 100, 90, 300, 400], 1).unwrap_err(),
        EscrowError::ValidationError
    );
    assert_eq!(attempt(&mut store, maker(), 100, 10, deadlines(), 0).unwrap_err(), EscrowError::ValidationError);
    assert_eq!(attempt(&mut store, taker(), 100, 10, deadlines(), 1).unwrap_err(), EscrowError::Unauthorized);
    assert_eq!(attempt(&mut store, maker(), i128::MAX, 1, deadlines(), 1).unwrap_err(), EscrowError::AmountOverflow);
    let key = attempt(&mut store, maker(), 100, 10, deadlines(), 1).unwrap();
    assert_eq!(attempt(&mut store, maker(), 100, 10, deadlines(), 1).unwrap_err(), EscrowError::AlreadyExists);
    assert!(EscrowContract::escrow_exists(&store, key));
    let equal = attempt(&mut store, maker(), 100, 10, vec![5, 5, 5, 5, 5], 1);
    assert!(equal.is_ok());
}

#[test]
fn records_under_other_order_hashes_stay_as_they_are() {
    let mut store = EscrowStore::new();
    let first = create(&mut store, true);
    let second = create(&mut store, false);
    assert_ne!(first, second);
    EscrowContract::withdraw(&mut store, 150, &taker(), first, secret(), Vec::new(), 0).unwrap();
    let untouched = EscrowContract::get_escrow_info(&store, second).unwrap();
    assert!(!untouched.claimed);
    assert!(!untouched.cancelled);
    assert!(!untouched.is_src);
    EscrowContract::public_cancel(&mut store, 400, first, executor()).unwrap_err();
    assert!(EscrowContract::cancel(&mut store, 300, &taker(), second).is_ok());
    assert!(EscrowContract::get_escrow_info(&store, first).unwrap().claimed);
}

#[test]
fn current_stage_follows_the_deadlines() {
    let mut store = EscrowStore::new();
    let key = create(&mut store, true);
    let stage = |now: u64| EscrowContract::get_current_stage(&store, now, key).unwrap();
    assert_eq!(stage(0), 0);
    assert_eq!(stage(99), 0);
    assert_eq!(stage(100), 1);
    assert_eq!(stage(199), 1);
    assert_eq!(stage(200), 2);
    assert_eq!(stage(299), 2);
    assert_eq!(stage(300), 3);
    assert_eq!(stage(399), 3);
    assert_eq!(stage(400), 4);
    assert_eq!(stage(u64::MAX), 4);
    assert_eq!(
        EscrowContract::get_current_stage(&store, 0, [1u8; 32]).unwrap_err(),
        EscrowError::NotFound
    );
}

#[test]
fn timelock_deadline_on_an_even_schedule() {
    assert_eq!(EscrowContract::get_timelock_deadline(1000, 0, 60), 1000);
    assert_eq!(EscrowContract::get_timelock_deadline(1000, 1, 60), 1060);
    assert_eq!(EscrowContract::get_timelock_deadline(1000, 2, 60), 1120);
    assert_eq!(EscrowContract::get_timelock_deadline(1000, 3, 60), 1180);
    assert_eq!(EscrowContract::get_timelock_deadline(1000, 4, 60), 1240);
    assert_eq!(EscrowContract::get_timelock_deadline(0, 4, u32::MAX), 4 * (u32::MAX as u64));
}
