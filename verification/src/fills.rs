//! Secrets and the parts of an escrow that they release.

use vstd::prelude::*;

use crate::error::EscrowError;
use crate::hashing::{keccak256, keccak256_digest, MAX_HASH_INPUT};
use crate::merkle::{proof_accepted, proof_nodes, verify};
use crate::types::{bytes32_eq, Bytes32};

verus! {

/// Whether `secret` opens `hashlock`: its digest is the hashlock.
pub open spec fn secret_accepted(secret: Seq<u8>, hashlock: Seq<u8>) -> bool {
    keccak256_digest(secret) == hashlock
}

/// Checks a secret against the hashlock of an escrow that is filled at once.
pub fn reveal_secret(secret: &Vec<u8>, hashlock: &Bytes32) -> (accepted: bool)
    requires
        secret@.len() <= MAX_HASH_INPUT,
    ensures
        accepted == secret_accepted(secret@, hashlock@),
{
    let digest = keccak256(secret);
    bytes32_eq(&digest, hashlock)
}

/// What becomes of an attempt to fill part `index`: the index must name a
/// part, the part must be unused, and the proof must show `leaf` at `index`
/// under `root`.
pub open spec fn fill_outcome(
    used: Seq<bool>,
    proof: Seq<Seq<u8>>,
    root: Seq<u8>,
    leaf: Seq<u8>,
    index: u32,
) -> Result<(), EscrowError> {
    if index >= used.len() {
        Err(EscrowError::InvalidFillIndex)
    } else if used[index as int] {
        Err(EscrowError::PartAlreadyUsed)
    } else if !proof_accepted(proof, root, leaf, index as nat) {
        Err(EscrowError::InvalidMerkleProof)
    } else {
        Ok(())
    }
}

/// Fills part `index` once: checks the index, that the part is unused and
/// the proof, and then marks the part as used. A refused attempt changes
/// nothing.
pub fn use_part(
    used: &mut Vec<bool>,
    proof: &Vec<Bytes32>,
    root: &Bytes32,
    leaf: &Bytes32,
    index: u32,
) -> (outcome: Result<(), EscrowError>)
    ensures
        outcome == fill_outcome(old(used)@, proof_nodes(proof@), root@, leaf@, index),
        outcome is Ok ==> final(used)@ == old(used)@.update(index as int, true),
        outcome is Err ==> final(used)@ == old(used)@,
{
    let position = index as usize;
    if position >= used.len() {
        return Err(EscrowError::InvalidFillIndex);
    }
    if used[position] {
        return Err(EscrowError::PartAlreadyUsed);
    }
    if !verify(proof, root, leaf, index) {
        return Err(EscrowError::InvalidMerkleProof);
    }
    used.set(position, true);
    Ok(())
}

/// A part is filled at most once: after a fill of `index`, every further
/// attempt on that index is refused as already used, whatever proof and leaf
/// come with it.
pub proof fn lemma_part_fills_once(
    used: Seq<bool>,
    proof: Seq<Seq<u8>>,
    root: Seq<u8>,
    leaf: Seq<u8>,
    index: u32,
    next_proof: Seq<Seq<u8>>,
    next_leaf: Seq<u8>,
)
    requires
        fill_outcome(used, proof, root, leaf, index) is Ok,
    ensures
        fill_outcome(used.update(index as int, true), next_proof, root, next_leaf, index) == Err::<(), EscrowError>(
            EscrowError::PartAlreadyUsed,
        ),
{
}

/// Filling one part leaves every other part as it was.
pub proof fn lemma_fill_keeps_other_parts(used: Seq<bool>, index: u32, other: u32)
    requires
        index < used.len(),
        other < used.len(),
        other != index,
    ensures
        used.update(index as int, true)[other as int] == used[other as int],
        used.update(index as int, true).len() == used.len(),
{
}

} // verus!
