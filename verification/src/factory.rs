//! The factory that stamps and funds new escrows.

use vstd::prelude::*;

use crate::error::EscrowError;
use crate::immutables::{EscrowConfig, Immutables};
use crate::timelocks::{deployed_at_of, offset_of, stamp_refusal, Stage, TimelocksLib, STAGE_SLOTS};
use crate::types::Address;
use crate::u256::{two_to_128, U256};

verus! {

/// The factory of escrows.
pub struct EscrowFactory;

/// What the factory is set up with.
#[derive(Clone, Copy, Debug, PartialEq, Eq)]
pub struct FactoryConfig {
    pub access_token: Address,
    pub rescue_delay_src: U256,
    pub rescue_delay_dst: U256,
}

/// The pull of the total of an escrow from its funder into the escrow.
#[derive(Clone, Copy, Debug, PartialEq, Eq)]
pub struct Funding {
    pub token: Address,
    pub from: Address,
    pub to: Address,
    pub amount: i128,
}

/// What a creation asks of the ledger: to set up the escrow contract, to
/// pull the funding, and to keep the stamped parameters.
#[derive(Clone, Copy, Debug, PartialEq, Eq)]
pub struct NewEscrow {
    pub escrow: Address,
    pub config: EscrowConfig,
    pub immutables: Immutables,
    pub funding: Funding,
}

/// Whether `after` is `before` stamped with the time `now`: the deployment
/// time is `now`, and every other parameter and offset is as before.
pub open spec fn stamped_from(after: Immutables, before: Immutables, now: u64) -> bool {
    &&& deployed_at_of(before.timelocks) == 0
    &&& deployed_at_of(after.timelocks) == now
    &&& forall|stage: u32| stage < STAGE_SLOTS ==> offset_of(after.timelocks, stage) == offset_of(before.timelocks, stage)
    &&& after.order_hash == before.order_hash
    &&& after.hashlock == before.hashlock
    &&& after.maker == before.maker
    &&& after.taker == before.taker
    &&& after.token == before.token
    &&& after.amount == before.amount
    &&& after.safety_deposit == before.safety_deposit
}

/// Why the stamp of the parameters with the time `now` is refused, if it is.
pub open spec fn stamp_error(immutables: Immutables, now: u64) -> Option<EscrowError> {
    stamp_refusal(immutables.timelocks, now as nat)
}

/// Whether the total of amount and safety deposit fits the ledger's signed
/// amounts.
pub open spec fn total_fits(immutables: Immutables) -> bool {
    immutables.amount@ + immutables.safety_deposit@ <= i128::MAX
}

impl EscrowFactory {
    /// The settings of a factory.
    pub fn __constructor(access_token: Address, rescue_delay_src: U256, rescue_delay_dst: U256) -> (config:
        FactoryConfig)
        ensures
            config == (FactoryConfig { access_token, rescue_delay_src, rescue_delay_dst }),
    {
        FactoryConfig { access_token, rescue_delay_src, rescue_delay_dst }
    }

    /// Stamps the parameters with the time `now` and works out the funding:
    /// the total of amount and safety deposit, from the maker.
    fn stamp_and_fund(escrow: Address, config: EscrowConfig, now: u64, immutables: Immutables) -> (outcome: Result<
        NewEscrow,
        EscrowError,
    >)
        ensures
            match outcome {
                Ok(created) => {
                    &&& stamp_error(immutables, now) is None
                    &&& total_fits(immutables)
                    &&& stamped_from(created.immutables, immutables, now)
                    &&& created.escrow == escrow
                    &&& created.config == config
                    &&& created.funding == (Funding {
                        token: immutables.token,
                        from: immutables.maker,
                        to: escrow,
                        amount: (immutables.amount@ + immutables.safety_deposit@) as i128,
                    })
                },
                Err(error) => {
                    match stamp_error(immutables, now) {
                        Some(reason) => error == reason,
                        None => !total_fits(immutables) && error == EscrowError::AmountOverflow,
                    }
                },
            },
    {
        let stamped = match TimelocksLib::set_deployed_at(immutables.timelocks, U256::from_u64(now)) {
            Err(error) => { return Err(error); },
            Ok(timelocks) => Immutables {
                order_hash: immutables.order_hash,
                hashlock: immutables.hashlock,
                maker: immutables.maker,
                taker: immutables.taker,
                token: immutables.token,
                amount: immutables.amount,
                safety_deposit: immutables.safety_deposit,
                timelocks,
            },
        };
        let total = match immutables.amount.checked_add(&immutables.safety_deposit) {
            None => {
                assert(two_to_128() * two_to_128() > i128::MAX) by (nonlinear_arith);
                return Err(EscrowError::AmountOverflow);
            },
            Some(sum) => match sum.to_i128() {
                None => { return Err(EscrowError::AmountOverflow); },
                Some(value) => value,
            },
        };
        Ok(
            NewEscrow {
                escrow,
                config,
                immutables: stamped,
                funding: Funding { token: immutables.token, from: immutables.maker, to: escrow, amount: total },
            },
        )
    }

    /// Creates a source escrow at `escrow_contract_address`: stamps the
    /// parameters with the time `now`, sets the contract up with the
    /// factory's access token and source rescue delay, and asks for the total
    /// of amount and safety deposit from the maker. Refused where the stamp
    /// is refused, and where the total does not fit.
    pub fn create_src_escrow(
        config: &FactoryConfig,
        now: u64,
        escrow_contract_address: Address,
        immutables: Immutables,
    ) -> (outcome: Result<NewEscrow, EscrowError>)
        ensures
            match outcome {
                Ok(created) => {
                    &&& stamp_error(immutables, now) is None
                    &&& total_fits(immutables)
                    &&& stamped_from(created.immutables, immutables, now)
                    &&& created.escrow == escrow_contract_address
                    &&& created.config == (EscrowConfig {
                        access_token: config.access_token,
                        rescue_delay: config.rescue_delay_src,
                    })
                    &&& created.funding == (Funding {
                        token: immutables.token,
                        from: immutables.maker,
                        to: escrow_contract_address,
                        amount: (immutables.amount@ + immutables.safety_deposit@) as i128,
                    })
                },
                Err(error) => {
                    match stamp_error(immutables, now) {
                        Some(reason) => error == reason,
                        None => !total_fits(immutables) && error == EscrowError::AmountOverflow,
                    }
                },
            },
    {
        let escrow_config = EscrowConfig { access_token: config.access_token, rescue_delay: config.rescue_delay_src };
        Self::stamp_and_fund(escrow_contract_address, escrow_config, now, immutables)
    }

    /// Creates a destination escrow at `escrow_contract_address`, as a source
    /// escrow is created, with the destination rescue delay. It is refused,
    /// too, where the destination leg could still be cancelled after the
    /// source leg: where its cancellation deadline lies after
    /// `src_cancellation_timestamp`.
    pub fn create_dst_escrow(
        config: &FactoryConfig,
        now: u64,
        escrow_contract_address: Address,
        immutables: Immutables,
        src_cancellation_timestamp: U256,
    ) -> (outcome: Result<NewEscrow, EscrowError>)
        ensures
            match outcome {
                Ok(created) => {
                    &&& stamp_error(immutables, now) is None
                    &&& now + offset_of(immutables.timelocks, Stage::DstCancellation.slot())
                        <= src_cancellation_timestamp@
                    &&& total_fits(immutables)
                    &&& stamped_from(created.immutables, immutables, now)
                    &&& created.escrow == escrow_contract_address
                    &&& created.config == (EscrowConfig {
                        access_token: config.access_token,
                        rescue_delay: config.rescue_delay_dst,
                    })
                    &&& created.funding == (Funding {
                        token: immutables.token,
                        from: immutables.maker,
                        to: escrow_contract_address,
                        amount: (immutables.amount@ + immutables.safety_deposit@) as i128,
                    })
                },
                Err(error) => {
                    match stamp_error(immutables, now) {
                        Some(reason) => error == reason,
                        None => if now + offset_of(immutables.timelocks, Stage::DstCancellation.slot())
                            > src_cancellation_timestamp@ {
                            error == EscrowError::ValidationError
                        } else {
                            !total_fits(immutables) && error == EscrowError::AmountOverflow
                        },
                    }
                },
            },
    {
        let escrow_config = EscrowConfig { access_token: config.access_token, rescue_delay: config.rescue_delay_dst };
        match TimelocksLib::set_deployed_at(immutables.timelocks, U256::from_u64(now)) {
            Err(error) => Err(error),
            Ok(stamped) => {
                let dst_cancellation = TimelocksLib::get(stamped, Stage::DstCancellation.index());
                if src_cancellation_timestamp.less_than(&dst_cancellation) {
                    return Err(EscrowError::ValidationError);
                }
                Self::stamp_and_fund(escrow_contract_address, escrow_config, now, immutables)
            },
        }
    }
}

} // verus!
