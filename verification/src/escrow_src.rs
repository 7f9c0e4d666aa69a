//! The source leg of an escrow that carries its parameters.

use vstd::prelude::*;

use crate::error::EscrowError;
use crate::escrow_dst::stage_deadline;
use crate::immutables::{
    after_outcome, before_outcome, payout_of, withdrawal_of, EscrowConfig, EscrowContract, Immutables, Payout,
};
use crate::timelocks::{Stage, TimelocksLib};
use crate::types::{Address, Bytes32};
use crate::u256::U256;

verus! {

/// The source leg.
pub struct EscrowSrc;

/// What a private withdrawal on the source leg comes to: the caller must be
/// the taker, `now` in the window from the withdrawal deadline up to the
/// cancellation deadline, and the secret right. The principal goes to
/// `target`, the safety deposit back to the maker.
pub open spec fn src_withdraw_outcome(
    now: u64,
    caller: Address,
    secret: Seq<u8>,
    target: Address,
    immutables: Immutables,
) -> Result<Payout, EscrowError> {
    if caller != immutables.taker {
        Err(EscrowError::Unauthorized)
    } else if after_outcome(now, stage_deadline(immutables, Stage::SrcWithdrawal)) is Err {
        Err(EscrowError::StageNotReached)
    } else if before_outcome(now, stage_deadline(immutables, Stage::SrcCancellation)) is Err {
        Err(EscrowError::StageExpired)
    } else {
        withdrawal_of(secret, immutables, target, immutables.maker)
    }
}

/// What a public withdrawal on the source leg comes to: `now` must be in the
/// window from the public withdrawal deadline up to the cancellation
/// deadline, and the secret right. The principal goes to the taker, the
/// safety deposit to the executor.
pub open spec fn src_public_withdraw_outcome(now: u64, executor: Address, secret: Seq<u8>, immutables: Immutables) -> Result<
    Payout,
    EscrowError,
> {
    if after_outcome(now, stage_deadline(immutables, Stage::SrcPublicWithdrawal)) is Err {
        Err(EscrowError::StageNotReached)
    } else if before_outcome(now, stage_deadline(immutables, Stage::SrcCancellation)) is Err {
        Err(EscrowError::StageExpired)
    } else {
        withdrawal_of(secret, immutables, immutables.taker, executor)
    }
}

/// What a private cancellation on the source leg comes to: the caller must
/// be the taker and the cancellation deadline reached. The principal and the
/// safety deposit go back to the maker.
pub open spec fn src_cancel_outcome(now: u64, caller: Address, immutables: Immutables) -> Result<
    Payout,
    EscrowError,
> {
    if caller != immutables.taker {
        Err(EscrowError::Unauthorized)
    } else if after_outcome(now, stage_deadline(immutables, Stage::SrcCancellation)) is Err {
        Err(EscrowError::StageNotReached)
    } else {
        payout_of(immutables, immutables.maker, immutables.maker)
    }
}

/// What a public cancellation on the source leg comes to: the public
/// cancellation deadline must be reached. The principal goes back to the
/// maker, the safety deposit to the executor.
pub open spec fn src_public_cancel_outcome(now: u64, executor: Address, immutables: Immutables) -> Result<
    Payout,
    EscrowError,
> {
    if after_outcome(now, stage_deadline(immutables, Stage::SrcPublicCancellation)) is Err {
        Err(EscrowError::StageNotReached)
    } else {
        payout_of(immutables, immutables.maker, executor)
    }
}

impl EscrowSrc {
    /// The settings of a source escrow contract.
    pub fn start(access_token: Address, rescue_delay: U256) -> (config: EscrowConfig)
        ensures
            config == (EscrowConfig { access_token, rescue_delay }),
    {
        EscrowContract::constructor(access_token, rescue_delay)
    }

    /// Withdraws on the private path of the source leg to `target`.
    pub fn src_withdraw(now: u64, caller: &Address, secret: Bytes32, immutables: Immutables, target: Address) -> (outcome:
        Result<Payout, EscrowError>)
        ensures
            outcome == src_withdraw_outcome(now, *caller, secret@, target, immutables),
    {
        Self::withdraw_to(now, caller, secret, target, immutables)
    }

    /// Withdraws on the private path of the source leg to `target`.
    pub fn withdraw_to(now: u64, caller: &Address, secret: Bytes32, target: Address, immutables: Immutables) -> (outcome:
        Result<Payout, EscrowError>)
        ensures
            outcome == src_withdraw_outcome(now, *caller, secret@, target, immutables),
    {
        match EscrowContract::only_taker(caller, &immutables) {
            Err(error) => { return Err(error); },
            Ok(()) => {},
        }
        let withdrawal_time = TimelocksLib::get(immutables.timelocks, Stage::SrcWithdrawal.index());
        let cancellation_time = TimelocksLib::get(immutables.timelocks, Stage::SrcCancellation.index());
        match EscrowContract::only_after(now, withdrawal_time) {
            Err(error) => { return Err(error); },
            Ok(()) => {},
        }
        match EscrowContract::only_before(now, cancellation_time) {
            Err(error) => { return Err(error); },
            Ok(()) => {},
        }
        Self::_withdraw_to(secret, &target, &immutables, &immutables.maker)
    }

    /// Withdraws on the public path of the source leg, for any executor.
    pub fn src_public_withdraw(now: u64, executor: &Address, secret: Bytes32, immutables: Immutables) -> (outcome:
        Result<Payout, EscrowError>)
        ensures
            outcome == src_public_withdraw_outcome(now, *executor, secret@, immutables),
    {
        let public_withdrawal_time = TimelocksLib::get(immutables.timelocks, Stage::SrcPublicWithdrawal.index());
        let cancellation_time = TimelocksLib::get(immutables.timelocks, Stage::SrcCancellation.index());
        match EscrowContract::only_after(now, public_withdrawal_time) {
            Err(error) => { return Err(error); },
            Ok(()) => {},
        }
        match EscrowContract::only_before(now, cancellation_time) {
            Err(error) => { return Err(error); },
            Ok(()) => {},
        }
        Self::_withdraw_to(secret, &immutables.taker, &immutables, executor)
    }

    /// Cancels the source leg on the private path.
    pub fn src_cancel(now: u64, caller: &Address, immutables: Immutables) -> (outcome: Result<Payout, EscrowError>)
        ensures
            outcome == src_cancel_outcome(now, *caller, immutables),
    {
        match EscrowContract::only_taker(caller, &immutables) {
            Err(error) => { return Err(error); },
            Ok(()) => {},
        }
        let cancellation_time = TimelocksLib::get(immutables.timelocks, Stage::SrcCancellation.index());
        match EscrowContract::only_after(now, cancellation_time) {
            Err(error) => { return Err(error); },
            Ok(()) => {},
        }
        Self::_cancel(&immutables, &immutables.maker)
    }

    /// Cancels the source leg on the public path, for any executor.
    pub fn public_cancel(now: u64, executor: &Address, immutables: Immutables) -> (outcome: Result<
        Payout,
        EscrowError,
    >)
        ensures
            outcome == src_public_cancel_outcome(now, *executor, immutables),
    {
        let public_cancellation_time = TimelocksLib::get(
            immutables.timelocks,
            Stage::SrcPublicCancellation.index(),
        );
        match EscrowContract::only_after(now, public_cancellation_time) {
            Err(error) => { return Err(error); },
            Ok(()) => {},
        }
        Self::_cancel(&immutables, executor)
    }

    /// With the right secret, the principal to `target` and the safety
    /// deposit to `deposit_to`.
    pub fn _withdraw_to(secret: Bytes32, target: &Address, immutables: &Immutables, deposit_to: &Address) -> (outcome:
        Result<Payout, EscrowError>)
        ensures
            outcome == withdrawal_of(secret@, *immutables, *target, *deposit_to),
    {
        match EscrowContract::only_valid_secret(&secret, immutables) {
            Err(error) => Err(error),
            Ok(()) => EscrowContract::settle(immutables, target, deposit_to),
        }
    }

    /// The principal back to the maker and the safety deposit to
    /// `deposit_to`.
    pub fn _cancel(immutables: &Immutables, deposit_to: &Address) -> (outcome: Result<Payout, EscrowError>)
        ensures
            outcome == payout_of(*immutables, immutables.maker, *deposit_to),
    {
        EscrowContract::settle(immutables, &immutables.maker, deposit_to)
    }
}

} // verus!
