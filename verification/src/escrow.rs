//! The escrow contract: creation, withdrawal and cancellation over a record
//! store.

use vstd::prelude::*;

use crate::error::EscrowError;
use crate::hashing::{collision_exists, keccak256_digest, MAX_HASH_INPUT};
use crate::merkle::{
    leaf_capacity, lemma_honest_proof_is_accepted, lemma_other_leaf_needs_collision,
    lemma_other_sibling_needs_collision, lemma_tree_proof_rebuilds_root, proof_accepted, proof_nodes, tree_proof,
    tree_root, MAX_PROOF_LEN,
};
use crate::order_hash::{order_hash, order_hash_of};
use crate::record::{fresh_state, valid_parameters, Escrow, EscrowState, Settlement};
use crate::stages::{
    current_stage, is_non_decreasing, stage_at, STAGE_COUNT, STAGE_SRC_CANCELLATION, STAGE_SRC_PUBLIC_CANCELLATION,
    STAGE_SRC_PUBLIC_WITHDRAWAL, STAGE_SRC_WITHDRAWAL,
};
use crate::store::EscrowStore;
use crate::types::{zero_bytes32, Address, Bytes32};
use crate::xdr::MAX_STAGES;

verus! {

/// Told when an escrow is created.
#[derive(Debug, PartialEq, Eq)]
pub struct EscrowCreatedEvent {
    pub order_hash: Bytes32,
    pub maker: Address,
    pub taker: Address,
    pub token: Address,
    pub amount: i128,
    pub hashlock: Bytes32,
    pub timelocks: Vec<u64>,
    pub is_src: bool,
    pub merkle_root: Bytes32,
    pub parts: u32,
}

/// Told when the principal is paid out on a withdrawal.
#[derive(Debug, PartialEq, Eq)]
pub struct FundsClaimedEvent {
    pub order_hash: Bytes32,
    pub preimage: Vec<u8>,
    pub recipient: Address,
    pub amount: i128,
    pub merkle_root: Bytes32,
    pub parts: u32,
}

/// Told when the principal is paid back on a cancellation.
#[derive(Clone, Copy, Debug, PartialEq, Eq)]
pub struct FundsRefundedEvent {
    pub order_hash: Bytes32,
    pub sender: Address,
    pub amount: i128,
    pub merkle_root: Bytes32,
    pub parts: u32,
}

/// Told when the safety deposit is paid out.
#[derive(Clone, Copy, Debug, PartialEq, Eq)]
pub struct SafetyDepositClaimedEvent {
    pub order_hash: Bytes32,
    pub executor: Address,
    pub amount: i128,
}

/// What a creation asks of the ledger: to move the total from the maker into
/// custody, and to tell of the new escrow.
#[derive(Debug, PartialEq, Eq)]
pub struct Creation {
    pub order_hash: Bytes32,
    pub funder: Address,
    pub total: i128,
    pub created: EscrowCreatedEvent,
}

/// What a withdrawal asks of the ledger: the two payments and the two events.
#[derive(Debug, PartialEq, Eq)]
pub struct Withdrawal {
    pub settlement: Settlement,
    pub safety: SafetyDepositClaimedEvent,
    pub claimed: FundsClaimedEvent,
}

/// What a cancellation asks of the ledger: the two payments, the refund
/// event and, on the public path, the safety deposit event.
#[derive(Clone, Copy, Debug, PartialEq, Eq)]
pub struct Refund {
    pub settlement: Settlement,
    pub safety: Option<SafetyDepositClaimedEvent>,
    pub refunded: FundsRefundedEvent,
}

/// The escrow state machine over a record store.
pub struct EscrowContract;

/// Deadline of `stage` when the first stage opens at `init_time` and each
/// further one `rescue_delay` seconds after the one before.
pub open spec fn timelock_deadline_of(init_time: u64, stage: u32, rescue_delay: u32) -> int {
    init_time + rescue_delay * stage
}

/// Whether a creation goes through, and why not.
pub open spec fn create_outcome(
    records: Map<Seq<u8>, Option<EscrowState>>,
    caller: Address,
    maker: Address,
    taker: Address,
    token: Address,
    amount: i128,
    safety_deposit: i128,
    hashlock: Seq<u8>,
    timelocks: Seq<u64>,
    is_src: bool,
    parts: u32,
) -> Result<(), EscrowError> {
    if !valid_parameters(amount, safety_deposit, timelocks, parts) {
        Err(EscrowError::ValidationError)
    } else if caller != maker {
        Err(EscrowError::Unauthorized)
    } else if records.dom().contains(order_hash_of(maker, taker, token, amount, hashlock, timelocks, is_src)) {
        Err(EscrowError::AlreadyExists)
    } else if amount + safety_deposit > i128::MAX {
        Err(EscrowError::AmountOverflow)
    } else {
        Ok(())
    }
}

/// The record that a mutator acts on: unknown order hashes are not found,
/// deleted records are final.
pub open spec fn open_record(records: Map<Seq<u8>, Option<EscrowState>>, key: Seq<u8>) -> Result<
    EscrowState,
    EscrowError,
> {
    if !records.dom().contains(key) {
        Err(EscrowError::NotFound)
    } else {
        match records[key] {
            None => Err(EscrowError::AlreadyFinalized),
            Some(state) => Ok(state),
        }
    }
}

/// Whether a private withdrawal under `key` goes through, and why not.
pub open spec fn withdraw_outcome(
    records: Map<Seq<u8>, Option<EscrowState>>,
    key: Seq<u8>,
    now: u64,
    caller: Address,
    preimage: Seq<u8>,
    proof: Seq<Seq<u8>>,
    fill_index: u32,
) -> Result<(), EscrowError> {
    match open_record(records, key) {
        Err(error) => Err(error),
        Ok(state) => state.withdraw_outcome(now, caller, preimage, proof, fill_index),
    }
}

/// Whether a public withdrawal under `key` goes through, and why not.
pub open spec fn public_withdraw_outcome(
    records: Map<Seq<u8>, Option<EscrowState>>,
    key: Seq<u8>,
    now: u64,
    preimage: Seq<u8>,
    proof: Seq<Seq<u8>>,
    fill_index: u32,
) -> Result<(), EscrowError> {
    match open_record(records, key) {
        Err(error) => Err(error),
        Ok(state) => state.public_withdraw_outcome(now, preimage, proof, fill_index),
    }
}

/// Whether a private cancellation under `key` goes through, and why not.
pub open spec fn cancel_outcome(
    records: Map<Seq<u8>, Option<EscrowState>>,
    key: Seq<u8>,
    now: u64,
    caller: Address,
) -> Result<(), EscrowError> {
    match open_record(records, key) {
        Err(error) => Err(error),
        Ok(state) => state.cancel_outcome(now, caller),
    }
}

/// Whether a public cancellation under `key` goes through, and why not.
pub open spec fn public_cancel_outcome(records: Map<Seq<u8>, Option<EscrowState>>, key: Seq<u8>, now: u64) -> Result<
    (),
    EscrowError,
> {
    match open_record(records, key) {
        Err(error) => Err(error),
        Ok(state) => state.public_cancel_outcome(now),
    }
}

impl EscrowContract {
    /// Creates an escrow. The amounts must be positive, the stage sequence
    /// complete and never stepping back, the part count at least one; the
    /// caller must be the maker; the order hash must never have been used;
    /// and the sum of amount and deposit must fit. The record is stored open
    /// with no part used, under its order hash, which is returned together
    /// with the funding to pull from the maker.
    pub fn create_escrow(
        store: &mut EscrowStore,
        caller: &Address,
        maker: Address,
        taker: Address,
        token: Address,
        amount: i128,
        safety_deposit: i128,
        hashlock: Bytes32,
        timelocks: Vec<u64>,
        is_src: bool,
        merkle_root: Bytes32,
        parts: u32,
    ) -> (outcome: Result<Creation, EscrowError>)
        requires
            old(store).well_formed(),
        ensures
            final(store).well_formed(),
            match outcome {
                Ok(creation) => {
                    &&& create_outcome(
                        old(store)@,
                        *caller,
                        maker,
                        taker,
                        token,
                        amount,
                        safety_deposit,
                        hashlock@,
                        timelocks@,
                        is_src,
                        parts,
                    ) is Ok
                    &&& creation.order_hash@ == order_hash_of(
                        maker,
                        taker,
                        token,
                        amount,
                        hashlock@,
                        timelocks@,
                        is_src,
                    )
                    &&& final(store)@ == old(store)@.insert(
                        creation.order_hash@,
                        Some(
                            fresh_state(
                                maker,
                                taker,
                                token,
                                amount,
                                safety_deposit,
                                hashlock@,
                                timelocks@,
                                is_src,
                                merkle_root@,
                                parts,
                            ),
                        ),
                    )
                    &&& creation.funder == maker
                    &&& creation.total == amount + safety_deposit
                    &&& creation.created.order_hash == creation.order_hash
                    &&& creation.created.maker == maker
                    &&& creation.created.taker == taker
                    &&& creation.created.token == token
                    &&& creation.created.amount == amount
                    &&& creation.created.hashlock == hashlock
                    &&& creation.created.timelocks@ == timelocks@
                    &&& creation.created.is_src == is_src
                    &&& creation.created.merkle_root == merkle_root
                    &&& creation.created.parts == parts
                },
                Err(error) => {
                    &&& create_outcome(
                        old(store)@,
                        *caller,
                        maker,
                        taker,
                        token,
                        amount,
                        safety_deposit,
                        hashlock@,
                        timelocks@,
                        is_src,
                        parts,
                    ) == Err::<(), EscrowError>(error)
                    &&& final(store)@ == old(store)@
                },
            },
    {
        if amount <= 0 || safety_deposit <= 0 || timelocks.len() != STAGE_COUNT || parts == 0 {
            return Err(EscrowError::ValidationError);
        }
        if !is_non_decreasing(&timelocks) {
            return Err(EscrowError::ValidationError);
        }
        if !caller.same_as(&maker) {
            return Err(EscrowError::Unauthorized);
        }
        let key = order_hash(&maker, &taker, &token, amount, &hashlock, &timelocks, is_src);
        if store.was_used(&key) {
            return Err(EscrowError::AlreadyExists);
        }
        match Escrow::open(
            maker,
            taker,
            token,
            amount,
            safety_deposit,
            hashlock,
            &timelocks,
            is_src,
            merkle_root,
            parts,
        ) {
            Err(error) => Err(error),
            Ok(escrow) => {
                store.insert(key, escrow);
                Ok(
                    Creation {
                        order_hash: key,
                        funder: maker,
                        total: amount + safety_deposit,
                        created: EscrowCreatedEvent {
                            order_hash: key,
                            maker,
                            taker,
                            token,
                            amount,
                            hashlock,
                            timelocks,
                            is_src,
                            merkle_root,
                            parts,
                        },
                    },
                )
            },
        }
    }

    /// Withdraws on the private path from the escrow under `order_hash`.
    /// Refused as not found for an order hash that was never used, as final
    /// for a record that was claimed, cancelled or deleted, outside the
    /// window from the withdrawal deadline up to the cancellation deadline,
    /// for a caller who is not the taker, and for a wrong secret, index or
    /// proof. On success the record becomes claimed, the principal goes to
    /// the recipient of the leg and the safety deposit back to the maker.
    pub fn withdraw(
        store: &mut EscrowStore,
        now: u64,
        caller: &Address,
        order_hash: Bytes32,
        preimage: Vec<u8>,
        merkle_proof: Vec<Bytes32>,
        fill_index: u32,
    ) -> (outcome: Result<Withdrawal, EscrowError>)
        requires
            old(store).well_formed(),
            preimage@.len() <= MAX_HASH_INPUT,
        ensures
            final(store).well_formed(),
            match outcome {
                Ok(withdrawal) => {
                    &&& withdraw_outcome(
                        old(store)@,
                        order_hash@,
                        now,
                        *caller,
                        preimage@,
                        proof_nodes(merkle_proof@),
                        fill_index,
                    ) is Ok
                    &&& old(store)@[order_hash@] matches Some(before)
                    &&& final(store)@ == old(store)@.insert(order_hash@, Some(before.claimed_with(fill_index)))
                    &&& withdrawal.settlement == before.withdraw_settlement()
                    &&& withdrawal.safety == (SafetyDepositClaimedEvent {
                        order_hash,
                        executor: before.maker,
                        amount: before.safety_deposit,
                    })
                    &&& withdrawal.claimed.order_hash == order_hash
                    &&& withdrawal.claimed.preimage@ == preimage@
                    &&& withdrawal.claimed.recipient == before.withdrawal_recipient()
                    &&& withdrawal.claimed.amount == before.amount
                    &&& withdrawal.claimed.merkle_root@ == before.merkle_root
                    &&& withdrawal.claimed.parts == before.parts
                },
                Err(error) => {
                    &&& withdraw_outcome(
                        old(store)@,
                        order_hash@,
                        now,
                        *caller,
                        preimage@,
                        proof_nodes(merkle_proof@),
                        fill_index,
                    ) == Err::<(), EscrowError>(error)
                    &&& final(store)@ == old(store)@
                },
            },
    {
        if !store.was_used(&order_hash) {
            return Err(EscrowError::NotFound);
        }
        match store.get(&order_hash) {
            None => Err(EscrowError::AlreadyFinalized),
            Some(found) => {
                let mut escrow = found;
                match escrow.withdraw(now, caller, &preimage, &merkle_proof, fill_index) {
                    Err(error) => Err(error),
                    Ok(settlement) => {
                        let merkle_root = escrow.merkle_root;
                        let parts = escrow.parts;
                        let maker = escrow.maker;
                        store.update(&order_hash, escrow);
                        Ok(
                            Withdrawal {
                                settlement,
                                safety: SafetyDepositClaimedEvent {
                                    order_hash,
                                    executor: maker,
                                    amount: settlement.safety_deposit.amount,
                                },
                                claimed: FundsClaimedEvent {
                                    order_hash,
                                    preimage,
                                    recipient: settlement.principal.to,
                                    amount: settlement.principal.amount,
                                    merkle_root,
                                    parts,
                                },
                            },
                        )
                    },
                }
            },
        }
    }

    /// Withdraws on the public path from the escrow under `order_hash`, for
    /// any executor. Refused as not found for an order hash that was never
    /// used, as final for a record that was claimed, cancelled or deleted,
    /// outside the window from the public withdrawal deadline up to the
    /// public cancellation deadline, and for a wrong secret, index or proof.
    /// On success the record becomes claimed, the principal goes to the
    /// recipient of the leg and the safety deposit to the executor.
    pub fn public_withdraw(
        store: &mut EscrowStore,
        now: u64,
        order_hash: Bytes32,
        preimage: Vec<u8>,
        merkle_proof: Vec<Bytes32>,
        fill_index: u32,
        executor: Address,
    ) -> (outcome: Result<Withdrawal, EscrowError>)
        requires
            old(store).well_formed(),
            preimage@.len() <= MAX_HASH_INPUT,
        ensures
            final(store).well_formed(),
            match outcome {
                Ok(withdrawal) => {
                    &&& public_withdraw_outcome(
                        old(store)@,
                        order_hash@,
                        now,
                        preimage@,
                        proof_nodes(merkle_proof@),
                        fill_index,
                    ) is Ok
                    &&& old(store)@[order_hash@] matches Some(before)
                    &&& final(store)@ == old(store)@.insert(order_hash@, Some(before.claimed_with(fill_index)))
                    &&& withdrawal.settlement == before.public_withdraw_settlement(executor)
                    &&& withdrawal.safety == (SafetyDepositClaimedEvent {
                        order_hash,
                        executor,
                        amount: before.safety_deposit,
                    })
                    &&& withdrawal.claimed.order_hash == order_hash
                    &&& withdrawal.claimed.preimage@ == preimage@
                    &&& withdrawal.claimed.recipient == before.withdrawal_recipient()
                    &&& withdrawal.claimed.amount == before.amount
                    &&& withdrawal.claimed.merkle_root@ == Seq::new(32, |i: int| 0u8)
                    &&& withdrawal.claimed.parts == 0
                },
                Err(error) => {
                    &&& public_withdraw_outcome(
                        old(store)@,
                        order_hash@,
                        now,
                        preimage@,
                        proof_nodes(merkle_proof@),
                        fill_index,
                    ) == Err::<(), EscrowError>(error)
                    &&& final(store)@ == old(store)@
                },
            },
    {
        if !store.was_used(&order_hash) {
            return Err(EscrowError::NotFound);
        }
        match store.get(&order_hash) {
            None => Err(EscrowError::AlreadyFinalized),
            Some(found) => {
                let mut escrow = found;
                match escrow.public_withdraw(now, &preimage, &merkle_proof, fill_index, &executor) {
                    Err(error) => Err(error),
                    Ok(settlement) => {
                        store.update(&order_hash, escrow);
                        let merkle_root = zero_bytes32();
                        assert(merkle_root@ =~= Seq::new(32, |i: int| 0u8));
                        Ok(
                            Withdrawal {
                                settlement,
                                safety: SafetyDepositClaimedEvent {
                                    order_hash,
                                    executor,
                                    amount: settlement.safety_deposit.amount,
                                },
                                claimed: FundsClaimedEvent {
                                    order_hash,
                                    preimage,
                                    recipient: settlement.principal.to,
                                    amount: settlement.principal.amount,
                                    merkle_root,
                                    parts: 0,
                                },
                            },
                        )
                    },
                }
            },
        }
    }

    /// Cancels on the private path the escrow under `order_hash`. Refused as
    /// not found for an order hash that was never used, as final for a record
    /// that was claimed, cancelled or deleted, before the cancellation
    /// deadline, and for a caller who is not the taker. On success the record
    /// becomes cancelled, the principal goes to the refund recipient of the
    /// leg and the safety deposit back to the maker.
    pub fn cancel(store: &mut EscrowStore, now: u64, caller: &Address, order_hash: Bytes32) -> (outcome: Result<
        Refund,
        EscrowError,
    >)
        requires
            old(store).well_formed(),
        ensures
            final(store).well_formed(),
            match outcome {
                Ok(refund) => {
                    &&& cancel_outcome(old(store)@, order_hash@, now, *caller) is Ok
                    &&& old(store)@[order_hash@] matches Some(before)
                    &&& final(store)@ == old(store)@.insert(order_hash@, Some(before.cancelled_now()))
                    &&& refund.settlement == before.cancel_settlement()
                    &&& refund.safety is None
                    &&& refund.refunded.order_hash == order_hash
                    &&& refund.refunded.sender == before.refund_recipient()
                    &&& refund.refunded.amount == before.amount
                    &&& refund.refunded.merkle_root@ == Seq::new(32, |i: int| 0u8)
                    &&& refund.refunded.parts == 0
                },
                Err(error) => {
                    &&& cancel_outcome(old(store)@, order_hash@, now, *caller) == Err::<(), EscrowError>(error)
                    &&& final(store)@ == old(store)@
                },
            },
    {
        if !store.was_used(&order_hash) {
            return Err(EscrowError::NotFound);
        }
        match store.get(&order_hash) {
            None => Err(EscrowError::AlreadyFinalized),
            Some(found) => {
                let mut escrow = found;
                match escrow.cancel(now, caller) {
                    Err(error) => Err(error),
                    Ok(settlement) => {
                        store.update(&order_hash, escrow);
                        let merkle_root = zero_bytes32();
                        assert(merkle_root@ =~= Seq::new(32, |i: int| 0u8));
                        Ok(
                            Refund {
                                settlement,
                                safety: None,
                                refunded: FundsRefundedEvent {
                                    order_hash,
                                    sender: settlement.principal.to,
                                    amount: settlement.principal.amount,
                                    merkle_root,
                                    parts: 0,
                                },
                            },
                        )
                    },
                }
            },
        }
    }

    /// Cancels on the public path the escrow under `order_hash`, for any
    /// executor. Refused as not found for an order hash that was never used,
    /// as final for a record that was claimed, cancelled or deleted, as
    /// unauthorized on the destination leg, and before the public
    /// cancellation deadline. On success the record is deleted, the principal
    /// goes back to the maker and the safety deposit to the executor.
    pub fn public_cancel(store: &mut EscrowStore, now: u64, order_hash: Bytes32, executor: Address) -> (outcome:
        Result<Refund, EscrowError>)
        requires
            old(store).well_formed(),
        ensures
            final(store).well_formed(),
            match outcome {
                Ok(refund) => {
                    &&& public_cancel_outcome(old(store)@, order_hash@, now) is Ok
                    &&& old(store)@[order_hash@] matches Some(before)
                    &&& final(store)@ == old(store)@.insert(order_hash@, None)
                    &&& refund.settlement == before.public_cancel_settlement(executor)
                    &&& refund.safety == Some(
                        SafetyDepositClaimedEvent { order_hash, executor, amount: before.safety_deposit },
                    )
                    &&& refund.refunded.order_hash == order_hash
                    &&& refund.refunded.sender == before.maker
                    &&& refund.refunded.amount == before.amount
                    &&& refund.refunded.merkle_root@ == before.merkle_root
                    &&& refund.refunded.parts == before.parts
                },
                Err(error) => {
                    &&& public_cancel_outcome(old(store)@, order_hash@, now) == Err::<(), EscrowError>(error)
                    &&& final(store)@ == old(store)@
                },
            },
    {
        if !store.was_used(&order_hash) {
            return Err(EscrowError::NotFound);
        }
        match store.get(&order_hash) {
            None => Err(EscrowError::AlreadyFinalized),
            Some(escrow) => match escrow.public_cancel(now, &executor) {
                Err(error) => Err(error),
                Ok(settlement) => {
                    store.delete(&order_hash);
                    Ok(
                        Refund {
                            settlement,
                            safety: Some(
                                SafetyDepositClaimedEvent {
                                    order_hash,
                                    executor,
                                    amount: settlement.safety_deposit.amount,
                                },
                            ),
                            refunded: FundsRefundedEvent {
                                order_hash,
                                sender: settlement.principal.to,
                                amount: settlement.principal.amount,
                                merkle_root: escrow.merkle_root,
                                parts: escrow.parts,
                            },
                        },
                    )
                },
            },
        }
    }

    /// The record under `order_hash`, if one is stored.
    pub fn get_escrow_info(store: &EscrowStore, order_hash: Bytes32) -> (info: Option<Escrow>)
        requires
            store.well_formed(),
        ensures
            match info {
                Some(escrow) => store.is_live(order_hash@) && store@[order_hash@] == Some(escrow@)
                    && escrow@.well_formed(),
                None => !store.is_live(order_hash@),
            },
    {
        store.get(&order_hash)
    }

    /// Whether a record is stored under `order_hash`.
    pub fn escrow_exists(store: &EscrowStore, order_hash: Bytes32) -> (live: bool)
        requires
            store.well_formed(),
        ensures
            live == store.is_live(order_hash@),
    {
        store.contains(&order_hash)
    }

    /// The order hash of a set of escrow parameters.
    pub fn compute_order_hash(
        maker: Address,
        taker: Address,
        token: Address,
        amount: i128,
        hashlock: Bytes32,
        timelocks: Vec<u64>,
        is_src: bool,
    ) -> (hash: Bytes32)
        requires
            timelocks@.len() <= MAX_STAGES,
        ensures
            hash@ == order_hash_of(maker, taker, token, amount, hashlock@, timelocks@, is_src),
    {
        order_hash(&maker, &taker, &token, amount, &hashlock, &timelocks, is_src)
    }

    /// The deadline of `stage` on an even schedule that starts at `init_time`
    /// with stages of `rescue_delay` seconds.
    pub fn get_timelock_deadline(init_time: u64, stage: u32, rescue_delay: u32) -> (deadline: u64)
        requires
            stage < STAGE_COUNT,
            timelock_deadline_of(init_time, stage, rescue_delay) <= u64::MAX,
        ensures
            deadline == timelock_deadline_of(init_time, stage, rescue_delay),
    {
        let delay: u64 = rescue_delay as u64;
        let steps: u64 = stage as u64;
        assert(delay * steps <= 0xffff_ffff * 4) by (nonlinear_arith)
            requires
                delay <= 0xffff_ffff,
                steps <= 4,
        ;
        init_time + delay * steps
    }

    /// The stage of the escrow under `order_hash` at time `now`; not found
    /// where no record is stored.
    pub fn get_current_stage(store: &EscrowStore, now: u64, order_hash: Bytes32) -> (stage: Result<u32, EscrowError>)
        requires
            store.well_formed(),
        ensures
            match stage {
                Ok(k) => store.is_live(order_hash@) && k == stage_at(store@[order_hash@]->0.timelocks, now),
                Err(error) => !store.is_live(order_hash@) && error == EscrowError::NotFound,
            },
    {
        match store.get(&order_hash) {
            Some(escrow) => Ok(current_stage(&escrow.timelocks, now)),
            None => Err(EscrowError::NotFound),
        }
    }
}

/// Right after a creation that goes through, the record under the new order
/// hash is open and none of its parts is used: neither claimed nor
/// cancelled, with one unused entry for each part.
pub proof fn lemma_created_escrow_is_open(
    records: Map<Seq<u8>, Option<EscrowState>>,
    caller: Address,
    maker: Address,
    taker: Address,
    token: Address,
    amount: i128,
    safety_deposit: i128,
    hashlock: Seq<u8>,
    timelocks: Seq<u64>,
    is_src: bool,
    merkle_root: Seq<u8>,
    parts: u32,
)
    requires
        create_outcome(
            records,
            caller,
            maker,
            taker,
            token,
            amount,
            safety_deposit,
            hashlock,
            timelocks,
            is_src,
            parts,
        ) is Ok,
    ensures
        ({
            let key = order_hash_of(maker, taker, token, amount, hashlock, timelocks, is_src);
            let created = fresh_state(
                maker,
                taker,
                token,
                amount,
                safety_deposit,
                hashlock,
                timelocks,
                is_src,
                merkle_root,
                parts,
            );
            let after = records.insert(key, Some(created));
            &&& open_record(after, key) == Ok::<EscrowState, EscrowError>(created)
            &&& !created.claimed
            &&& !created.cancelled
            &&& created.used_parts.len() == parts
            &&& created.no_part_used()
        }),
{
}

/// A withdrawal goes through at most once: after one, on either path, every
/// further withdrawal under the same order hash is refused as final, whatever
/// the time, the caller, the secret and the proof.
pub proof fn lemma_withdrawal_is_final(
    records: Map<Seq<u8>, Option<EscrowState>>,
    key: Seq<u8>,
    fill_index: u32,
    later: u64,
    caller: Address,
    preimage: Seq<u8>,
    proof: Seq<Seq<u8>>,
    next_index: u32,
)
    requires
        open_record(records, key) is Ok,
    ensures
        ({
            let before = open_record(records, key)->Ok_0;
            let after = records.insert(key, Some(before.claimed_with(fill_index)));
            &&& withdraw_outcome(after, key, later, caller, preimage, proof, next_index) == Err::<(), EscrowError>(
                EscrowError::AlreadyFinalized,
            )
            &&& public_withdraw_outcome(after, key, later, preimage, proof, next_index) == Err::<(), EscrowError>(
                EscrowError::AlreadyFinalized,
            )
        }),
{
}

/// Whether `preimage` is the secret of the unused part `index` of an open
/// record of several parts whose Merkle root is the root of the complete tree
/// of depth `depth` over `leaves`.
pub open spec fn honest_part(
    state: EscrowState,
    leaves: Seq<Seq<u8>>,
    depth: nat,
    index: u32,
    preimage: Seq<u8>,
) -> bool {
    &&& state.well_formed()
    &&& state.is_open()
    &&& state.parts > 1
    &&& depth <= MAX_PROOF_LEN
    &&& leaves.len() == leaf_capacity(depth)
    &&& index < state.parts
    &&& index < leaves.len()
    &&& state.merkle_root == tree_root(leaves, depth)
    &&& leaves[index as int] == keccak256_digest(preimage)
    &&& !state.used_parts[index as int]
}

/// Whether `now` is in the window of the private withdrawal.
pub open spec fn in_withdrawal_window(state: EscrowState, now: u64) -> bool {
    state.timelocks[STAGE_SRC_WITHDRAWAL as int] <= now < state.timelocks[STAGE_SRC_CANCELLATION as int]
}

/// The taker's withdrawal of an unused part with its secret and the proof
/// that is built from the tree goes through, inside the window. It marks
/// that part as used and leaves the other parts as they were.
pub proof fn lemma_honest_fill_is_accepted(
    state: EscrowState,
    leaves: Seq<Seq<u8>>,
    depth: nat,
    index: u32,
    preimage: Seq<u8>,
    now: u64,
)
    requires
        honest_part(state, leaves, depth, index, preimage),
        in_withdrawal_window(state, now),
    ensures
        state.withdraw_outcome(now, state.taker, preimage, tree_proof(leaves, depth, index as nat), index) is Ok,
        state.claimed_with(index).used_parts[index as int],
        forall|other: int|
            0 <= other < state.parts && other != index ==> state.claimed_with(index).used_parts[other]
                == state.used_parts[other],
{
    lemma_honest_proof_is_accepted(leaves, depth, index as nat);
}

/// A withdrawal with a preimage whose digest is not the leaf of the part is
/// refused for its proof, and so changes nothing, unless Keccak-256 collides.
pub proof fn lemma_wrong_secret_is_refused(
    state: EscrowState,
    leaves: Seq<Seq<u8>>,
    depth: nat,
    index: u32,
    preimage: Seq<u8>,
    wrong: Seq<u8>,
    now: u64,
)
    requires
        honest_part(state, leaves, depth, index, preimage),
        in_withdrawal_window(state, now),
        keccak256_digest(wrong) != keccak256_digest(preimage),
    ensures
        collision_exists() || state.withdraw_outcome(
            now,
            state.taker,
            wrong,
            tree_proof(leaves, depth, index as nat),
            index,
        ) == Err::<(), EscrowError>(EscrowError::InvalidMerkleProof),
{
    let proof = tree_proof(leaves, depth, index as nat);
    lemma_honest_proof_is_accepted(leaves, depth, index as nat);
    if proof_accepted(proof, state.merkle_root, keccak256_digest(wrong), index as nat) {
        lemma_other_leaf_needs_collision(proof, keccak256_digest(preimage), keccak256_digest(wrong), index as nat);
    }
}

/// A withdrawal with a proof in which one sibling was replaced is refused
/// for its proof, and so changes nothing, unless Keccak-256 collides.
pub proof fn lemma_changed_proof_is_refused(
    state: EscrowState,
    leaves: Seq<Seq<u8>>,
    depth: nat,
    index: u32,
    preimage: Seq<u8>,
    level: int,
    replacement: Seq<u8>,
    now: u64,
)
    requires
        honest_part(state, leaves, depth, index, preimage),
        in_withdrawal_window(state, now),
        0 <= level < depth,
        replacement != tree_proof(leaves, depth, index as nat)[level],
    ensures
        collision_exists() || state.withdraw_outcome(
            now,
            state.taker,
            preimage,
            tree_proof(leaves, depth, index as nat).update(level, replacement),
            index,
        ) == Err::<(), EscrowError>(EscrowError::InvalidMerkleProof),
{
    let proof = tree_proof(leaves, depth, index as nat);
    lemma_tree_proof_rebuilds_root(leaves, depth, index as nat);
    lemma_honest_proof_is_accepted(leaves, depth, index as nat);
    if proof_accepted(proof.update(level, replacement), state.merkle_root, keccak256_digest(preimage), index as nat) {
        lemma_other_sibling_needs_collision(proof, level, replacement, keccak256_digest(preimage), index as nat);
    }
}

/// A part that is marked as used is never filled again: on a record of
/// several parts, a withdrawal for that part is refused as already used on
/// either path, inside the window and for the right caller, whatever secret
/// and proof come with it.
pub proof fn lemma_used_part_is_refused(
    state: EscrowState,
    now: u64,
    preimage: Seq<u8>,
    proof: Seq<Seq<u8>>,
    fill_index: u32,
)
    requires
        state.well_formed(),
        state.is_open(),
        state.parts > 1,
        fill_index < state.parts,
        state.used_parts[fill_index as int],
    ensures
        state.secret_outcome(preimage, proof, fill_index) == Err::<(), EscrowError>(EscrowError::PartAlreadyUsed),
        state.timelocks[STAGE_SRC_WITHDRAWAL as int] <= now < state.timelocks[STAGE_SRC_CANCELLATION as int]
            ==> state.withdraw_outcome(now, state.taker, preimage, proof, fill_index) == Err::<(), EscrowError>(
            EscrowError::PartAlreadyUsed,
        ),
        state.timelocks[STAGE_SRC_PUBLIC_WITHDRAWAL as int] <= now < state.timelocks[STAGE_SRC_PUBLIC_CANCELLATION as int]
            ==> state.public_withdraw_outcome(now, preimage, proof, fill_index) == Err::<(), EscrowError>(
            EscrowError::PartAlreadyUsed,
        ),
{
}

/// No transition leaves a final state: once a record is claimed, cancelled
/// or deleted, every mutator is refused as final.
pub proof fn lemma_final_states_are_terminal(
    records: Map<Seq<u8>, Option<EscrowState>>,
    key: Seq<u8>,
    now: u64,
    caller: Address,
    preimage: Seq<u8>,
    proof: Seq<Seq<u8>>,
    fill_index: u32,
)
    requires
        records.dom().contains(key),
        records[key] matches Some(state) ==> !state.is_open(),
    ensures
        withdraw_outcome(records, key, now, caller, preimage, proof, fill_index) == Err::<(), EscrowError>(
            EscrowError::AlreadyFinalized,
        ),
        public_withdraw_outcome(records, key, now, preimage, proof, fill_index) == Err::<(), EscrowError>(
            EscrowError::AlreadyFinalized,
        ),
        cancel_outcome(records, key, now, caller) == Err::<(), EscrowError>(EscrowError::AlreadyFinalized),
        public_cancel_outcome(records, key, now) == Err::<(), EscrowError>(EscrowError::AlreadyFinalized),
{
}

/// Every transition keeps a record well formed, so claimed and cancelled
/// never hold together and the used parts keep their count.
pub proof fn lemma_transitions_keep_records_well_formed(state: EscrowState, fill_index: u32)
    requires
        state.well_formed(),
        state.is_open(),
        state.parts > 1 ==> fill_index < state.parts,
    ensures
        state.claimed_with(fill_index).well_formed(),
        state.cancelled_now().well_formed(),
        state.claimed_with(fill_index).order_hash() == state.order_hash(),
        state.cancelled_now().order_hash() == state.order_hash(),
{
}

/// An operation on one order hash leaves the records under every other order
/// hash as they were.
pub proof fn lemma_other_records_untouched(
    records: Map<Seq<u8>, Option<EscrowState>>,
    key: Seq<u8>,
    slot: Option<EscrowState>,
    other: Seq<u8>,
)
    requires
        other != key,
    ensures
        records.insert(key, slot).dom().contains(other) == records.dom().contains(other),
        records.dom().contains(other) ==> records.insert(key, slot)[other] == records[other],
{
}

} // verus!
