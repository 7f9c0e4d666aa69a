//! The destination leg of an escrow that carries its parameters.

use vstd::prelude::*;

use crate::error::EscrowError;
use crate::immutables::{
    after_outcome, before_outcome, payout_of, withdrawal_of, EscrowConfig, EscrowContract, Immutables, Payout,
};
use crate::timelocks::{deadline_of, Stage, TimelocksLib};
use crate::types::{Address, Bytes32};

verus! {

/// The destination leg.
pub struct EscrowDst;

/// The deadline of a stage as a natural number.
pub open spec fn stage_deadline(immutables: Immutables, stage: Stage) -> nat {
    deadline_of(immutables.timelocks, stage.slot()) as nat
}

/// What a private withdrawal on the destination leg comes to: the caller
/// must be the taker, `now` in the window from the withdrawal deadline up to
/// the cancellation deadline, and the secret right. The principal goes to the
/// maker, the safety deposit back to the maker.
pub open spec fn dst_withdraw_outcome(now: u64, caller: Address, secret: Seq<u8>, immutables: Immutables) -> Result<
    Payout,
    EscrowError,
> {
    if caller != immutables.taker {
        Err(EscrowError::Unauthorized)
    } else if after_outcome(now, stage_deadline(immutables, Stage::DstWithdrawal)) is Err {
        Err(EscrowError::StageNotReached)
    } else if before_outcome(now, stage_deadline(immutables, Stage::DstCancellation)) is Err {
        Err(EscrowError::StageExpired)
    } else {
        withdrawal_of(secret, immutables, immutables.maker, immutables.maker)
    }
}

/// What a cancellation on the destination leg comes to: the caller must be
/// the taker and the cancellation deadline reached. The principal goes to the
/// taker, the safety deposit back to the maker.
pub open spec fn dst_cancel_outcome(now: u64, caller: Address, immutables: Immutables) -> Result<
    Payout,
    EscrowError,
> {
    if caller != immutables.taker {
        Err(EscrowError::Unauthorized)
    } else if after_outcome(now, stage_deadline(immutables, Stage::DstCancellation)) is Err {
        Err(EscrowError::StageNotReached)
    } else {
        payout_of(immutables, immutables.taker, immutables.maker)
    }
}

/// What a public withdrawal on the destination leg comes to: the executor
/// must hold the access token, `now` be in the window from the public
/// withdrawal deadline up to the cancellation deadline, and the secret be
/// right. The principal goes to the maker, the safety deposit to the
/// executor.
pub open spec fn dst_public_withdraw_outcome(
    config: EscrowConfig,
    now: u64,
    executor: Address,
    secret: Seq<u8>,
    immutables: Immutables,
) -> Result<Payout, EscrowError> {
    if executor != config.access_token {
        Err(EscrowError::Unauthorized)
    } else if after_outcome(now, stage_deadline(immutables, Stage::DstPublicWithdrawal)) is Err {
        Err(EscrowError::StageNotReached)
    } else if before_outcome(now, stage_deadline(immutables, Stage::DstCancellation)) is Err {
        Err(EscrowError::StageExpired)
    } else {
        withdrawal_of(secret, immutables, immutables.maker, executor)
    }
}

impl EscrowDst {
    /// Withdraws on the private path of the destination leg.
    pub fn withdraw(now: u64, caller: &Address, secret: Bytes32, immutables: Immutables) -> (outcome: Result<
        Payout,
        EscrowError,
    >)
        ensures
            outcome == dst_withdraw_outcome(now, *caller, secret@, immutables),
    {
        match EscrowContract::only_taker(caller, &immutables) {
            Err(error) => { return Err(error); },
            Ok(()) => {},
        }
        let withdrawal_time = TimelocksLib::get(immutables.timelocks, Stage::DstWithdrawal.index());
        let cancellation_time = TimelocksLib::get(immutables.timelocks, Stage::DstCancellation.index());
        match EscrowContract::only_after(now, withdrawal_time) {
            Err(error) => { return Err(error); },
            Ok(()) => {},
        }
        match EscrowContract::only_before(now, cancellation_time) {
            Err(error) => { return Err(error); },
            Ok(()) => {},
        }
        EscrowContract::_withdraw(secret, &immutables, &immutables.maker)
    }

    /// Cancels the destination leg.
    pub fn cancel(now: u64, caller: &Address, immutables: Immutables) -> (outcome: Result<Payout, EscrowError>)
        ensures
            outcome == dst_cancel_outcome(now, *caller, immutables),
    {
        match EscrowContract::only_taker(caller, &immutables) {
            Err(error) => { return Err(error); },
            Ok(()) => {},
        }
        let cancellation_time = TimelocksLib::get(immutables.timelocks, Stage::DstCancellation.index());
        match EscrowContract::only_after(now, cancellation_time) {
            Err(error) => { return Err(error); },
            Ok(()) => {},
        }
        EscrowContract::settle(&immutables, &immutables.taker, &immutables.maker)
    }

    /// Withdraws on the public path of the destination leg, for the holder
    /// of the access token.
    pub fn public_withdraw(
        config: &EscrowConfig,
        now: u64,
        executor: &Address,
        secret: Bytes32,
        immutables: Immutables,
    ) -> (outcome: Result<Payout, EscrowError>)
        ensures
            outcome == dst_public_withdraw_outcome(*config, now, *executor, secret@, immutables),
    {
        let access_token = EscrowContract::get_access_token(config);
        if !executor.same_as(&access_token) {
            return Err(EscrowError::Unauthorized);
        }
        let public_withdrawal_time = TimelocksLib::get(immutables.timelocks, Stage::DstPublicWithdrawal.index());
        let cancellation_time = TimelocksLib::get(immutables.timelocks, Stage::DstCancellation.index());
        match EscrowContract::only_after(now, public_withdrawal_time) {
            Err(error) => { return Err(error); },
            Ok(()) => {},
        }
        match EscrowContract::only_before(now, cancellation_time) {
            Err(error) => { return Err(error); },
            Ok(()) => {},
        }
        EscrowContract::_withdraw(secret, &immutables, executor)
    }
}

} // verus!
