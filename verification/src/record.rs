//! The record of one escrow and the transitions that finish it.

use vstd::prelude::*;

use crate::error::EscrowError;
use crate::fills::{fill_outcome, reveal_secret, secret_accepted, use_part};
use crate::hashing::{keccak256, keccak256_digest, MAX_HASH_INPUT};
use crate::merkle::proof_nodes;
use crate::stages::{
    is_non_decreasing, non_decreasing, STAGE_COUNT, STAGE_SRC_CANCELLATION, STAGE_SRC_PUBLIC_CANCELLATION,
    STAGE_SRC_PUBLIC_WITHDRAWAL, STAGE_SRC_WITHDRAWAL,
};
use crate::types::{copy_of, Address, Bytes32};

verus! {

/// The content hash under which an escrow is stored.
#[derive(Clone, Copy, Debug, PartialEq, Eq)]
pub struct OrderHash {
    pub value: Bytes32,
}

/// The commitment to the secret of an escrow.
#[derive(Clone, Copy, Debug, PartialEq, Eq)]
pub struct HashLock {
    pub value: Bytes32,
}

/// One escrow as it is stored.
#[derive(Debug, PartialEq, Eq)]
pub struct Escrow {
    pub maker: Address,
    pub taker: Address,
    pub token: Address,
    pub amount: i128,
    pub safety_deposit: i128,
    pub hashlock: HashLock,
    pub timelocks: Vec<u64>,
    pub claimed: bool,
    pub cancelled: bool,
    pub is_src: bool,
    pub merkle_root: Bytes32,
    pub parts: u32,
    pub used_parts: Vec<bool>,
}

/// What an escrow record says.
pub struct EscrowState {
    pub maker: Address,
    pub taker: Address,
    pub token: Address,
    pub amount: i128,
    pub safety_deposit: i128,
    pub hashlock: Seq<u8>,
    pub timelocks: Seq<u64>,
    pub claimed: bool,
    pub cancelled: bool,
    pub is_src: bool,
    pub merkle_root: Seq<u8>,
    pub parts: u32,
    pub used_parts: Seq<bool>,
}

/// A payment out of the custody of the escrow.
#[derive(Clone, Copy, Debug, PartialEq, Eq)]
pub struct Transfer {
    pub to: Address,
    pub amount: i128,
}

/// The two payments that finish an escrow: the principal and the safety
/// deposit.
#[derive(Clone, Copy, Debug, PartialEq, Eq)]
pub struct Settlement {
    pub principal: Transfer,
    pub safety_deposit: Transfer,
}

impl EscrowState {
    /// The invariant of a record: positive amounts whose sum fits, a full
    /// stage sequence that never steps back, at least one part, a used-parts
    /// entry for each part, and not both claimed and cancelled.
    pub open spec fn well_formed(self) -> bool {
        &&& self.amount > 0
        &&& self.safety_deposit > 0
        &&& self.amount + self.safety_deposit <= i128::MAX
        &&& self.hashlock.len() == 32
        &&& self.merkle_root.len() == 32
        &&& self.timelocks.len() == STAGE_COUNT
        &&& non_decreasing(self.timelocks)
        &&& self.parts >= 1
        &&& self.used_parts.len() == self.parts
        &&& !(self.claimed && self.cancelled)
    }

    /// Whether the record can still be acted on.
    pub open spec fn is_open(self) -> bool {
        !self.claimed && !self.cancelled
    }

    /// Whether no part has been filled.
    pub open spec fn no_part_used(self) -> bool {
        forall|i: int| 0 <= i < self.used_parts.len() ==> !self.used_parts[i]
    }

    /// The party that receives the principal on a withdrawal: the taker on
    /// the source leg, the maker on the destination leg.
    pub open spec fn withdrawal_recipient(self) -> Address {
        if self.is_src {
            self.taker
        } else {
            self.maker
        }
    }

    /// The party that receives the principal on a cancellation: the maker on
    /// the source leg, the taker on the destination leg.
    pub open spec fn refund_recipient(self) -> Address {
        if self.is_src {
            self.maker
        } else {
            self.taker
        }
    }

    /// What the secret check says: for an escrow of one part the digest of
    /// the secret must be the hashlock; for one of several parts the digest
    /// is a leaf that must be shown, unused, under the Merkle root.
    pub open spec fn secret_outcome(self, preimage: Seq<u8>, proof: Seq<Seq<u8>>, fill_index: u32) -> Result<
        (),
        EscrowError,
    > {
        if self.parts == 1 {
            if secret_accepted(preimage, self.hashlock) {
                Ok(())
            } else {
                Err(EscrowError::InvalidPreimage)
            }
        } else {
            fill_outcome(self.used_parts, proof, self.merkle_root, keccak256_digest(preimage), fill_index)
        }
    }

    /// Whether a private withdrawal goes through, and why not.
    pub open spec fn withdraw_outcome(
        self,
        now: u64,
        caller: Address,
        preimage: Seq<u8>,
        proof: Seq<Seq<u8>>,
        fill_index: u32,
    ) -> Result<(), EscrowError> {
        if !self.is_open() {
            Err(EscrowError::AlreadyFinalized)
        } else if now < self.timelocks[STAGE_SRC_WITHDRAWAL as int] {
            Err(EscrowError::StageNotReached)
        } else if now >= self.timelocks[STAGE_SRC_CANCELLATION as int] {
            Err(EscrowError::StageExpired)
        } else if caller != self.taker {
            Err(EscrowError::Unauthorized)
        } else {
            self.secret_outcome(preimage, proof, fill_index)
        }
    }

    /// Whether a public withdrawal goes through, and why not.
    pub open spec fn public_withdraw_outcome(
        self,
        now: u64,
        preimage: Seq<u8>,
        proof: Seq<Seq<u8>>,
        fill_index: u32,
    ) -> Result<(), EscrowError> {
        if !self.is_open() {
            Err(EscrowError::AlreadyFinalized)
        } else if now < self.timelocks[STAGE_SRC_PUBLIC_WITHDRAWAL as int] {
            Err(EscrowError::StageNotReached)
        } else if now >= self.timelocks[STAGE_SRC_PUBLIC_CANCELLATION as int] {
            Err(EscrowError::StageExpired)
        } else {
            self.secret_outcome(preimage, proof, fill_index)
        }
    }

    /// Whether a private cancellation goes through, and why not.
    pub open spec fn cancel_outcome(self, now: u64, caller: Address) -> Result<(), EscrowError> {
        if !self.is_open() {
            Err(EscrowError::AlreadyFinalized)
        } else if now < self.timelocks[STAGE_SRC_CANCELLATION as int] {
            Err(EscrowError::StageNotReached)
        } else if caller != self.taker {
            Err(EscrowError::Unauthorized)
        } else {
            Ok(())
        }
    }

    /// Whether a public cancellation goes through, and why not.
    pub open spec fn public_cancel_outcome(self, now: u64) -> Result<(), EscrowError> {
        if !self.is_open() {
            Err(EscrowError::AlreadyFinalized)
        } else if !self.is_src {
            Err(EscrowError::Unauthorized)
        } else if now < self.timelocks[STAGE_SRC_PUBLIC_CANCELLATION as int] {
            Err(EscrowError::StageNotReached)
        } else {
            Ok(())
        }
    }

    /// The record after a withdrawal: claimed, and the part marked as used
    /// where the escrow has several.
    pub open spec fn claimed_with(self, fill_index: u32) -> EscrowState {
        EscrowState {
            claimed: true,
            used_parts: if self.parts == 1 {
                self.used_parts
            } else {
                self.used_parts.update(fill_index as int, true)
            },
            ..self
        }
    }

    /// The record after a cancellation.
    pub open spec fn cancelled_now(self) -> EscrowState {
        EscrowState { cancelled: true, ..self }
    }

    /// Payments of a private withdrawal: the principal to the recipient of
    /// the leg, the safety deposit back to the maker.
    pub open spec fn withdraw_settlement(self) -> Settlement {
        Settlement {
            principal: Transfer { to: self.withdrawal_recipient(), amount: self.amount },
            safety_deposit: Transfer { to: self.maker, amount: self.safety_deposit },
        }
    }

    /// Payments of a public withdrawal: the principal to the recipient of the
    /// leg, the safety deposit to the executor.
    pub open spec fn public_withdraw_settlement(self, executor: Address) -> Settlement {
        Settlement {
            principal: Transfer { to: self.withdrawal_recipient(), amount: self.amount },
            safety_deposit: Transfer { to: executor, amount: self.safety_deposit },
        }
    }

    /// Payments of a private cancellation: the principal to the refund
    /// recipient of the leg, the safety deposit back to the maker.
    pub open spec fn cancel_settlement(self) -> Settlement {
        Settlement {
            principal: Transfer { to: self.refund_recipient(), amount: self.amount },
            safety_deposit: Transfer { to: self.maker, amount: self.safety_deposit },
        }
    }

    /// Payments of a public cancellation: the principal back to the maker,
    /// the safety deposit to the executor.
    pub open spec fn public_cancel_settlement(self, executor: Address) -> Settlement {
        Settlement {
            principal: Transfer { to: self.maker, amount: self.amount },
            safety_deposit: Transfer { to: executor, amount: self.safety_deposit },
        }
    }
}

/// Whether the parameters of a new escrow are acceptable.
pub open spec fn valid_parameters(amount: i128, safety_deposit: i128, timelocks: Seq<u64>, parts: u32) -> bool {
    &&& amount > 0
    &&& safety_deposit > 0
    &&& timelocks.len() == STAGE_COUNT
    &&& non_decreasing(timelocks)
    &&& parts >= 1
}

/// The record of a new escrow: open, with no part used.
pub open spec fn fresh_state(
    maker: Address,
    taker: Address,
    token: Address,
    amount: i128,
    safety_deposit: i128,
    hashlock: Seq<u8>,
    timelocks: Seq<u64>,
    is_src: bool,
    merkle_root: Seq<u8>,
    parts: u32,
) -> EscrowState {
    EscrowState {
        maker,
        taker,
        token,
        amount,
        safety_deposit,
        hashlock,
        timelocks,
        claimed: false,
        cancelled: false,
        is_src,
        merkle_root,
        parts,
        used_parts: Seq::new(parts as nat, |i: int| false),
    }
}

impl View for Escrow {
    type V = EscrowState;

    open spec fn view(&self) -> EscrowState {
        EscrowState {
            maker: self.maker,
            taker: self.taker,
            token: self.token,
            amount: self.amount,
            safety_deposit: self.safety_deposit,
            hashlock: self.hashlock.value@,
            timelocks: self.timelocks@,
            claimed: self.claimed,
            cancelled: self.cancelled,
            is_src: self.is_src,
            merkle_root: self.merkle_root@,
            parts: self.parts,
            used_parts: self.used_parts@,
        }
    }
}

fn unused_parts(parts: u32) -> (flags: Vec<bool>)
    ensures
        flags@ == Seq::new(parts as nat, |i: int| false),
{
    let mut flags: Vec<bool> = Vec::new();
    let mut i: u32 = 0;
    while i < parts
        invariant
            i <= parts,
            flags@.len() == i,
            forall|j: int| 0 <= j < i ==> !flags@[j],
        decreases parts - i,
    {
        flags.push(false);
        i += 1;
    }
    assert(flags@ =~= Seq::new(parts as nat, |i: int| false));
    flags
}

impl Escrow {
    /// Validates the parameters of a new escrow and makes its record: open,
    /// with no part used. Amounts must be positive, the stage sequence
    /// complete and never stepping back, and there must be at least one part;
    /// the sum of amount and deposit must fit.
    pub fn open(
        maker: Address,
        taker: Address,
        token: Address,
        amount: i128,
        safety_deposit: i128,
        hashlock: Bytes32,
        timelocks: &Vec<u64>,
        is_src: bool,
        merkle_root: Bytes32,
        parts: u32,
    ) -> (made: Result<Escrow, EscrowError>)
        ensures
            match made {
                Ok(escrow) => {
                    &&& valid_parameters(amount, safety_deposit, timelocks@, parts)
                    &&& amount + safety_deposit <= i128::MAX
                    &&& escrow@ == fresh_state(
                        maker,
                        taker,
                        token,
                        amount,
                        safety_deposit,
                        hashlock@,
                        timelocks@,
                        is_src,
                        merkle_root@,
                        parts,
                    )
                    &&& escrow@.well_formed()
                },
                Err(error) => {
                    if !valid_parameters(amount, safety_deposit, timelocks@, parts) {
                        error == EscrowError::ValidationError
                    } else {
                        amount + safety_deposit > i128::MAX && error == EscrowError::AmountOverflow
                    }
                },
            },
    {
        if amount <= 0 || safety_deposit <= 0 || timelocks.len() != STAGE_COUNT || parts == 0 {
            return Err(EscrowError::ValidationError);
        }
        if !is_non_decreasing(timelocks) {
            return Err(EscrowError::ValidationError);
        }
        if amount > i128::MAX - safety_deposit {
            return Err(EscrowError::AmountOverflow);
        }
        Ok(
            Escrow {
                maker,
                taker,
                token,
                amount,
                safety_deposit,
                hashlock: HashLock { value: hashlock },
                timelocks: copy_of(timelocks.as_slice()),
                claimed: false,
                cancelled: false,
                is_src,
                merkle_root,
                parts,
                used_parts: unused_parts(parts),
            },
        )
    }

    /// Checks the invariant of a record that comes from outside.
    pub fn is_well_formed(&self) -> (sound: bool)
        ensures
            sound == self@.well_formed(),
    {
        self.amount > 0 && self.safety_deposit > 0 && self.amount <= i128::MAX - self.safety_deposit
            && self.timelocks.len() == STAGE_COUNT && is_non_decreasing(&self.timelocks) && self.parts >= 1
            && self.used_parts.len() == self.parts as usize && !(self.claimed && self.cancelled)
    }

    /// A copy of the record.
    pub fn duplicate(&self) -> (copy: Escrow)
        ensures
            copy@ == self@,
    {
        Escrow {
            maker: self.maker,
            taker: self.taker,
            token: self.token,
            amount: self.amount,
            safety_deposit: self.safety_deposit,
            hashlock: self.hashlock,
            timelocks: copy_of(self.timelocks.as_slice()),
            claimed: self.claimed,
            cancelled: self.cancelled,
            is_src: self.is_src,
            merkle_root: self.merkle_root,
            parts: self.parts,
            used_parts: copy_of(self.used_parts.as_slice()),
        }
    }

    /// The party whose authorization the private paths ask for: the taker.
    pub fn private_actor(&self) -> (actor: Address)
        ensures
            actor == self@.taker,
    {
        self.taker
    }

    /// Checks the secret, and marks the part as used where the escrow has
    /// several.
    fn accept_secret(&mut self, preimage: &Vec<u8>, merkle_proof: &Vec<Bytes32>, fill_index: u32) -> (outcome:
        Result<(), EscrowError>)
        requires
            old(self)@.well_formed(),
            preimage@.len() <= MAX_HASH_INPUT,
        ensures
            outcome == old(self)@.secret_outcome(preimage@, proof_nodes(merkle_proof@), fill_index),
            outcome is Ok ==> final(self)@ == (EscrowState {
                claimed: old(self)@.claimed,
                ..old(self)@.claimed_with(fill_index)
            }),
            outcome is Err ==> final(self)@ == old(self)@,
    {
        if self.parts == 1 {
            if reveal_secret(preimage, &self.hashlock.value) {
                Ok(())
            } else {
                Err(EscrowError::InvalidPreimage)
            }
        } else {
            let leaf = keccak256(preimage);
            let root = self.merkle_root;
            use_part(&mut self.used_parts, merkle_proof, &root, &leaf, fill_index)
        }
    }

    /// Withdraws on the private path. The record must be open, `now` in the
    /// window from the withdrawal deadline up to the cancellation deadline,
    /// the caller the taker, and the secret right. The principal goes to the
    /// recipient of the leg and the safety deposit back to the maker; the
    /// record becomes claimed. A refused call leaves the record as it was.
    pub fn withdraw(
        &mut self,
        now: u64,
        caller: &Address,
        preimage: &Vec<u8>,
        merkle_proof: &Vec<Bytes32>,
        fill_index: u32,
    ) -> (outcome: Result<Settlement, EscrowError>)
        requires
            old(self)@.well_formed(),
            preimage@.len() <= MAX_HASH_INPUT,
        ensures
            final(self)@.well_formed(),
            match outcome {
                Ok(settlement) => {
                    &&& old(self)@.withdraw_outcome(now, *caller, preimage@, proof_nodes(merkle_proof@), fill_index)
                        is Ok
                    &&& final(self)@ == old(self)@.claimed_with(fill_index)
                    &&& settlement == old(self)@.withdraw_settlement()
                },
                Err(error) => {
                    &&& old(self)@.withdraw_outcome(now, *caller, preimage@, proof_nodes(merkle_proof@), fill_index)
                        == Err::<(), EscrowError>(error)
                    &&& final(self)@ == old(self)@
                },
            },
    {
        if self.claimed || self.cancelled {
            return Err(EscrowError::AlreadyFinalized);
        }
        if now < self.timelocks[STAGE_SRC_WITHDRAWAL as usize] {
            return Err(EscrowError::StageNotReached);
        }
        if now >= self.timelocks[STAGE_SRC_CANCELLATION as usize] {
            return Err(EscrowError::StageExpired);
        }
        if !caller.same_as(&self.taker) {
            return Err(EscrowError::Unauthorized);
        }
        match self.accept_secret(preimage, merkle_proof, fill_index) {
            Err(error) => Err(error),
            Ok(()) => {
                self.claimed = true;
                let recipient = if self.is_src {
                    self.taker
                } else {
                    self.maker
                };
                Ok(
                    Settlement {
                        principal: Transfer { to: recipient, amount: self.amount },
                        safety_deposit: Transfer { to: self.maker, amount: self.safety_deposit },
                    },
                )
            },
        }
    }

    /// Withdraws on the public path. The record must be open, `now` in the
    /// window from the public withdrawal deadline up to the public
    /// cancellation deadline, and the secret right; any executor may call.
    /// The principal goes to the recipient of the leg and the safety deposit
    /// to the executor; the record becomes claimed.
    pub fn public_withdraw(
        &mut self,
        now: u64,
        preimage: &Vec<u8>,
        merkle_proof: &Vec<Bytes32>,
        fill_index: u32,
        executor: &Address,
    ) -> (outcome: Result<Settlement, EscrowError>)
        requires
            old(self)@.well_formed(),
            preimage@.len() <= MAX_HASH_INPUT,
        ensures
            final(self)@.well_formed(),
            match outcome {
                Ok(settlement) => {
                    &&& old(self)@.public_withdraw_outcome(now, preimage@, proof_nodes(merkle_proof@), fill_index)
                        is Ok
                    &&& final(self)@ == old(self)@.claimed_with(fill_index)
                    &&& settlement == old(self)@.public_withdraw_settlement(*executor)
                },
                Err(error) => {
                    &&& old(self)@.public_withdraw_outcome(now, preimage@, proof_nodes(merkle_proof@), fill_index)
                        == Err::<(), EscrowError>(error)
                    &&& final(self)@ == old(self)@
                },
            },
    {
        if self.claimed || self.cancelled {
            return Err(EscrowError::AlreadyFinalized);
        }
        if now < self.timelocks[STAGE_SRC_PUBLIC_WITHDRAWAL as usize] {
            return Err(EscrowError::StageNotReached);
        }
        if now >= self.timelocks[STAGE_SRC_PUBLIC_CANCELLATION as usize] {
            return Err(EscrowError::StageExpired);
        }
        match self.accept_secret(preimage, merkle_proof, fill_index) {
            Err(error) => Err(error),
            Ok(()) => {
                self.claimed = true;
                let recipient = if self.is_src {
                    self.taker
                } else {
                    self.maker
                };
                Ok(
                    Settlement {
                        principal: Transfer { to: recipient, amount: self.amount },
                        safety_deposit: Transfer { to: *executor, amount: self.safety_deposit },
                    },
                )
            },
        }
    }

    /// Cancels on the private path. The record must be open, the
    /// cancellation deadline reached, and the caller the taker. The principal
    /// goes to the refund recipient of the leg and the safety deposit back to
    /// the maker; the record becomes cancelled.
    pub fn cancel(&mut self, now: u64, caller: &Address) -> (outcome: Result<Settlement, EscrowError>)
        requires
            old(self)@.well_formed(),
        ensures
            final(self)@.well_formed(),
            match outcome {
                Ok(settlement) => {
                    &&& old(self)@.cancel_outcome(now, *caller) is Ok
                    &&& final(self)@ == old(self)@.cancelled_now()
                    &&& settlement == old(self)@.cancel_settlement()
                },
                Err(error) => {
                    &&& old(self)@.cancel_outcome(now, *caller) == Err::<(), EscrowError>(error)
                    &&& final(self)@ == old(self)@
                },
            },
    {
        if self.claimed || self.cancelled {
            return Err(EscrowError::AlreadyFinalized);
        }
        if now < self.timelocks[STAGE_SRC_CANCELLATION as usize] {
            return Err(EscrowError::StageNotReached);
        }
        if !caller.same_as(&self.taker) {
            return Err(EscrowError::Unauthorized);
        }
        self.cancelled = true;
        let recipient = if self.is_src {
            self.maker
        } else {
            self.taker
        };
        Ok(
            Settlement {
                principal: Transfer { to: recipient, amount: self.amount },
                safety_deposit: Transfer { to: self.maker, amount: self.safety_deposit },
            },
        )
    }

    /// Decides a public cancellation, after which the record is deleted. The
    /// record must be open and on the source leg, and the public cancellation
    /// deadline reached. The principal goes back to the maker and the safety
    /// deposit to the executor.
    pub fn public_cancel(&self, now: u64, executor: &Address) -> (outcome: Result<Settlement, EscrowError>)
        requires
            self@.well_formed(),
        ensures
            match outcome {
                Ok(settlement) => {
                    &&& self@.public_cancel_outcome(now) is Ok
                    &&& settlement == self@.public_cancel_settlement(*executor)
                },
                Err(error) => self@.public_cancel_outcome(now) == Err::<(), EscrowError>(error),
            },
    {
        if self.claimed || self.cancelled {
            return Err(EscrowError::AlreadyFinalized);
        }
        if !self.is_src {
            return Err(EscrowError::Unauthorized);
        }
        if now < self.timelocks[STAGE_SRC_PUBLIC_CANCELLATION as usize] {
            return Err(EscrowError::StageNotReached);
        }
        Ok(
            Settlement {
                principal: Transfer { to: self.maker, amount: self.amount },
                safety_deposit: Transfer { to: *executor, amount: self.safety_deposit },
            },
        )
    }
}

} // verus!
