//! Escrows that carry their parameters with every call: the parameters, the
//! checks that every leg shares, and the payments that finish a leg.

use vstd::prelude::*;

use crate::error::EscrowError;
use crate::hashing::{keccak256, keccak256_digest};
use crate::timelocks::{deployed_at_of, Timelocks, TimelocksLib};
use crate::types::{bytes32_eq, copy_of, Address, Bytes32};
use crate::u256::{two_to_128, U256};

verus! {

/// The parameters of one escrow, fixed at its creation.
#[derive(Clone, Copy, Debug, PartialEq, Eq)]
pub struct Immutables {
    pub order_hash: Bytes32,
    pub hashlock: Bytes32,
    pub maker: Address,
    pub taker: Address,
    pub token: Address,
    pub amount: U256,
    pub safety_deposit: U256,
    pub timelocks: Timelocks,
}

/// What an escrow contract is set up with.
#[derive(Clone, Copy, Debug, PartialEq, Eq)]
pub struct EscrowConfig {
    pub access_token: Address,
    pub rescue_delay: U256,
}

/// A payment of a token out of the custody of the escrow.
#[derive(Clone, Copy, Debug, PartialEq, Eq)]
pub struct TokenTransfer {
    pub token: Address,
    pub to: Address,
    pub amount: i128,
}

/// The two payments that finish a leg: the principal and the safety deposit.
#[derive(Clone, Copy, Debug, PartialEq, Eq)]
pub struct Payout {
    pub principal: TokenTransfer,
    pub safety_deposit: TokenTransfer,
}

/// The payment of `amount`, which must fit the ledger's signed amounts.
pub open spec fn transfer_of(token: Address, to: Address, amount: U256) -> Result<TokenTransfer, EscrowError> {
    if amount@ > i128::MAX {
        Err(EscrowError::AmountOverflow)
    } else {
        Ok(TokenTransfer { token, to, amount: amount@ as i128 })
    }
}

/// The payments of a leg: the principal to `principal_to` and the safety
/// deposit to `deposit_to`, both in the token of the escrow.
pub open spec fn payout_of(immutables: Immutables, principal_to: Address, deposit_to: Address) -> Result<
    Payout,
    EscrowError,
> {
    match transfer_of(immutables.token, principal_to, immutables.amount) {
        Err(error) => Err(error),
        Ok(principal) => match transfer_of(immutables.token, deposit_to, immutables.safety_deposit) {
            Err(error) => Err(error),
            Ok(safety_deposit) => Ok(Payout { principal, safety_deposit }),
        },
    }
}

/// What the lower bound of a window says: the deadline must have come.
pub open spec fn after_outcome(now: u64, timelock: nat) -> Result<(), EscrowError> {
    if now < timelock {
        Err(EscrowError::StageNotReached)
    } else {
        Ok(())
    }
}

/// What the upper bound of a window says: the deadline must not have come.
pub open spec fn before_outcome(now: u64, timelock: nat) -> Result<(), EscrowError> {
    if now >= timelock {
        Err(EscrowError::StageExpired)
    } else {
        Ok(())
    }
}

/// What a withdrawal of a leg comes to once its caller and window are
/// checked: the secret must hash to the hashlock, and the amounts must fit.
pub open spec fn withdrawal_of(
    secret: Seq<u8>,
    immutables: Immutables,
    principal_to: Address,
    deposit_to: Address,
) -> Result<Payout, EscrowError> {
    if keccak256_digest(secret) != immutables.hashlock@ {
        Err(EscrowError::InvalidPreimage)
    } else {
        payout_of(immutables, principal_to, deposit_to)
    }
}

/// What a rescue comes to: only the taker may rescue, from the deployment
/// time plus the rescue delay on, an amount that fits.
pub open spec fn rescue_outcome(
    config: EscrowConfig,
    now: u64,
    caller: Address,
    token: Address,
    amount: U256,
    immutables: Immutables,
) -> Result<TokenTransfer, EscrowError> {
    if caller != immutables.taker {
        Err(EscrowError::Unauthorized)
    } else if deployed_at_of(immutables.timelocks) + config.rescue_delay@ >= two_to_128() * two_to_128() {
        Err(EscrowError::AmountOverflow)
    } else if now < deployed_at_of(immutables.timelocks) + config.rescue_delay@ {
        Err(EscrowError::StageNotReached)
    } else {
        transfer_of(token, immutables.taker, amount)
    }
}

/// What the legs of an escrow with carried parameters share.
pub struct EscrowContract;

impl EscrowContract {
    /// The settings of an escrow contract.
    pub fn constructor(access_token: Address, rescue_delay: U256) -> (config: EscrowConfig)
        ensures
            config == (EscrowConfig { access_token, rescue_delay }),
    {
        EscrowConfig { access_token, rescue_delay }
    }

    /// The address whose holder may act on the public paths.
    pub fn get_access_token(config: &EscrowConfig) -> (token: Address)
        ensures
            token == config.access_token,
    {
        config.access_token
    }

    /// The delay after deployment from which funds can be rescued.
    pub fn get_rescue_delay(config: &EscrowConfig) -> (delay: U256)
        ensures
            delay == config.rescue_delay,
    {
        config.rescue_delay
    }

    /// Rescues `amount` of `token` to the taker, who alone may ask, once the
    /// rescue delay has passed since deployment.
    pub fn rescue_funds(
        config: &EscrowConfig,
        now: u64,
        caller: &Address,
        token: Address,
        amount: U256,
        immutables: Immutables,
    ) -> (outcome: Result<TokenTransfer, EscrowError>)
        ensures
            outcome == rescue_outcome(*config, now, *caller, token, amount, immutables),
    {
        match Self::only_taker(caller, &immutables) {
            Err(error) => Err(error),
            Ok(()) => match TimelocksLib::rescue_start(immutables.timelocks, config.rescue_delay) {
                Err(error) => Err(error),
                Ok(start) => match Self::only_after(now, start) {
                    Err(error) => Err(error),
                    Ok(()) => Self::uni_transfer(&token, &immutables.taker, &amount),
                },
            },
        }
    }

    /// Passes only the taker.
    pub fn only_taker(caller: &Address, immutables: &Immutables) -> (outcome: Result<(), EscrowError>)
        ensures
            outcome == (if *caller == immutables.taker {
                Ok::<(), EscrowError>(())
            } else {
                Err::<(), EscrowError>(EscrowError::Unauthorized)
            }),
    {
        if caller.same_as(&immutables.taker) {
            Ok(())
        } else {
            Err(EscrowError::Unauthorized)
        }
    }

    /// Passes from `timelock` on.
    pub fn only_after(now: u64, timelock: U256) -> (outcome: Result<(), EscrowError>)
        ensures
            outcome == after_outcome(now, timelock@),
    {
        if U256::from_u64(now).less_than(&timelock) {
            Err(EscrowError::StageNotReached)
        } else {
            Ok(())
        }
    }

    /// Passes until `timelock`, which is itself too late.
    pub fn only_before(now: u64, timelock: U256) -> (outcome: Result<(), EscrowError>)
        ensures
            outcome == before_outcome(now, timelock@),
    {
        if U256::from_u64(now).less_than(&timelock) {
            Ok(())
        } else {
            Err(EscrowError::StageExpired)
        }
    }

    /// Passes only the secret whose digest is the hashlock.
    pub fn only_valid_secret(secret: &Bytes32, immutables: &Immutables) -> (outcome: Result<(), EscrowError>)
        ensures
            outcome == (if keccak256_digest(secret@) == immutables.hashlock@ {
                Ok::<(), EscrowError>(())
            } else {
                Err::<(), EscrowError>(EscrowError::InvalidPreimage)
            }),
    {
        let digest = Self::keccak256(*secret);
        if bytes32_eq(&digest, &immutables.hashlock) {
            Ok(())
        } else {
            Err(EscrowError::InvalidPreimage)
        }
    }

    /// The Keccak-256 digest of 32 bytes.
    pub fn keccak256(data: Bytes32) -> (digest: Bytes32)
        ensures
            digest@ == keccak256_digest(data@),
    {
        let bytes = copy_of(data.as_slice());
        keccak256(&bytes)
    }

    /// The payment of `amount` of `token` to `to`. Refused where the amount
    /// does not fit the ledger's signed amounts; nothing wraps.
    pub fn uni_transfer(token: &Address, to: &Address, amount: &U256) -> (outcome: Result<TokenTransfer, EscrowError>)
        ensures
            outcome == transfer_of(*token, *to, *amount),
    {
        match amount.to_i128() {
            Some(value) => Ok(TokenTransfer { token: *token, to: *to, amount: value }),
            None => Err(EscrowError::AmountOverflow),
        }
    }

    /// The payments of a leg: the principal to `principal_to`, the safety
    /// deposit to `deposit_to`.
    pub fn settle(immutables: &Immutables, principal_to: &Address, deposit_to: &Address) -> (outcome: Result<
        Payout,
        EscrowError,
    >)
        ensures
            outcome == payout_of(*immutables, *principal_to, *deposit_to),
    {
        match Self::uni_transfer(&immutables.token, principal_to, &immutables.amount) {
            Err(error) => Err(error),
            Ok(principal) => match Self::uni_transfer(&immutables.token, deposit_to, &immutables.safety_deposit) {
                Err(error) => Err(error),
                Ok(safety_deposit) => Ok(Payout { principal, safety_deposit }),
            },
        }
    }

    /// Withdraws on the destination leg: with the right secret the principal
    /// goes to the maker and the safety deposit to `deposit_to`.
    pub fn _withdraw(secret: Bytes32, immutables: &Immutables, deposit_to: &Address) -> (outcome: Result<
        Payout,
        EscrowError,
    >)
        ensures
            outcome == withdrawal_of(secret@, *immutables, immutables.maker, *deposit_to),
    {
        match Self::only_valid_secret(&secret, immutables) {
            Err(error) => Err(error),
            Ok(()) => Self::settle(immutables, &immutables.maker, deposit_to),
        }
    }
}

} // verus!
