//! Why an escrow operation was refused.

use vstd::prelude::*;

verus! {

/// The reasons for which an escrow operation is refused. A refused operation
/// leaves every record as it was.
#[derive(Clone, Copy, Debug, PartialEq, Eq, Structural)]
pub enum EscrowError {
    /// An amount, a deposit, a stage sequence, a part count or a creation
    /// time is malformed.
    ValidationError,
    /// A record with this order hash was created before.
    AlreadyExists,
    /// No record was ever created under this order hash.
    NotFound,
    /// The record was claimed, cancelled or deleted.
    AlreadyFinalized,
    /// The caller is not the party that may act, or the record is on the wrong leg.
    Unauthorized,
    /// The window of the operation has not opened yet.
    StageNotReached,
    /// The window of the operation has closed.
    StageExpired,
    /// The secret does not hash to the hashlock.
    InvalidPreimage,
    /// The Merkle proof does not lead to the committed root.
    InvalidMerkleProof,
    /// The fill index names no part of the escrow.
    InvalidFillIndex,
    /// The part was filled before.
    PartAlreadyUsed,
    /// An amount, a sum of amounts or a time does not fit its type or field.
    AmountOverflow,
}

} // verus!
