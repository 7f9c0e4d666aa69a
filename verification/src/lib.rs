//! Decision logic of a hash-time-locked escrow for cross-chain swaps.

pub mod error;
pub mod escrow;
pub mod escrow_dst;
pub mod escrow_src;
pub mod factory;
pub mod fills;
pub mod hashing;
pub mod immutables;
pub mod merkle;
pub mod order_hash;
pub mod record;
pub mod relayer;
pub mod stages;
pub mod store;
pub mod timelocks;
pub mod types;
pub mod u256;
pub mod xdr;
