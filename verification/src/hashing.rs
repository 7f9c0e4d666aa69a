//! Keccak-256 digests, computed by the ledger host.

use vstd::prelude::*;

use crate::types::Bytes32;

verus! {

/// Longest input that is handed to the host for hashing, in bytes.
///
/// A host that is created with its default budget meters every call. Hashing
/// one byte costs it under fifty metered instructions of the hundred million
/// it allows, so an input of this length stays well inside the budget.
pub const MAX_HASH_INPUT: usize = 1_048_576;

/// The Keccak-256 digest of a byte string.
pub uninterp spec fn keccak256_digest(data: Seq<u8>) -> Seq<u8>;

/// Two different byte strings with the same Keccak-256 digest.
pub open spec fn is_collision(x: Seq<u8>, y: Seq<u8>) -> bool {
    x != y && keccak256_digest(x) == keccak256_digest(y)
}

/// Whether Keccak-256 has any collision at all.
pub open spec fn collision_exists() -> bool {
    exists|x: Seq<u8>, y: Seq<u8>| is_collision(x, y)
}

/// A byte string that is the digest of itself together with another one, on
/// either side.
pub open spec fn is_cycle(x: Seq<u8>, y: Seq<u8>) -> bool {
    keccak256_digest(x + y) == x || keccak256_digest(y + x) == x
}

/// Whether any byte string is the digest of itself together with another.
pub open spec fn cycle_exists() -> bool {
    exists|x: Seq<u8>, y: Seq<u8>| is_cycle(x, y)
}

/// Whether every digest has 32 bytes, as every digest that is computed has.
pub open spec fn digests_have_32_bytes() -> bool {
    forall|x: Seq<u8>| (#[trigger] keccak256_digest(x)).len() == 32
}

/// Calls `soroban_sdk::crypto::Crypto::keccak256` on a fresh default
/// environment and copies the digest out.
///
/// Trusted: the digest is the Keccak-256 digest of `data`, a function of the
/// bytes alone. The bound on the length keeps the call inside the default
/// budget of the host, which would otherwise abort.
#[verifier::external_body]
fn host_keccak256(data: &Vec<u8>) -> (digest: Bytes32)
    requires
        data@.len() <= MAX_HASH_INPUT,
    ensures
        digest@ == keccak256_digest(data@),
{
    let env = soroban_sdk::Env::default();
    let bytes = soroban_sdk::Bytes::from_slice(&env, data.as_slice());
    env.crypto().keccak256(&bytes).to_array()
}

/// The Keccak-256 digest of `data`.
pub fn keccak256(data: &Vec<u8>) -> (digest: Bytes32)
    requires
        data@.len() <= MAX_HASH_INPUT,
    ensures
        digest@ == keccak256_digest(data@),
{
    host_keccak256(data)
}

} // verus!
