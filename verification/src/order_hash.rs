//! The content hash that identifies an escrow.

use vstd::prelude::*;

use crate::hashing::{collision_exists, is_collision, keccak256, keccak256_digest};
use crate::types::{append_copy, Address, Bytes32};
use crate::xdr::{
    address_to_xdr, bool_to_xdr, bytes32_to_xdr, i128_to_xdr, lemma_address_piece, lemma_bool_piece,
    lemma_bytes32_piece, lemma_i128_piece, lemma_u64_seq_piece, lemma_xdr_lengths, u64_seq_to_xdr, xdr_of_address,
    xdr_of_bool, xdr_of_bytes32, xdr_of_i128, xdr_of_u64_seq, MAX_STAGES,
};

verus! {

/// Longest canonical encoding: three addresses, an amount, a hashlock, a stage
/// sequence of `MAX_STAGES` deadlines and a side.
pub const MAX_ENCODING_LEN: usize = 296;

/// The parameters that an order hash is computed from.
pub struct OrderParameters {
    pub maker: Address,
    pub taker: Address,
    pub token: Address,
    pub amount: i128,
    pub hashlock: Seq<u8>,
    pub timelocks: Seq<u64>,
    pub is_src: bool,
}

impl OrderParameters {
    /// Whether the hashlock has its 32 bytes and the count of deadlines fits
    /// the 4 bytes that it is written in.
    pub open spec fn well_formed(self) -> bool {
        self.hashlock.len() == 32 && self.timelocks.len() <= u32::MAX
    }

    /// The canonical encoding of the parameters.
    pub open spec fn encoding(self) -> Seq<u8> {
        canonical_encoding_of(
            self.maker,
            self.taker,
            self.token,
            self.amount,
            self.hashlock,
            self.timelocks,
            self.is_src,
        )
    }

    /// The order hash of the parameters.
    pub open spec fn order_hash(self) -> Seq<u8> {
        order_hash_of(
            self.maker,
            self.taker,
            self.token,
            self.amount,
            self.hashlock,
            self.timelocks,
            self.is_src,
        )
    }
}

/// The bytes that are hashed: the wire form of each parameter, one after the
/// other, in this fixed order, none left out.
pub open spec fn canonical_encoding_of(
    maker: Address,
    taker: Address,
    token: Address,
    amount: i128,
    hashlock: Seq<u8>,
    timelocks: Seq<u64>,
    is_src: bool,
) -> Seq<u8> {
    xdr_of_address(maker) + xdr_of_address(taker) + xdr_of_address(token) + xdr_of_i128(amount)
        + xdr_of_bytes32(hashlock) + xdr_of_u64_seq(timelocks) + xdr_of_bool(is_src)
}

/// The order hash of a set of escrow parameters.
pub open spec fn order_hash_of(
    maker: Address,
    taker: Address,
    token: Address,
    amount: i128,
    hashlock: Seq<u8>,
    timelocks: Seq<u64>,
    is_src: bool,
) -> Seq<u8> {
    keccak256_digest(canonical_encoding_of(maker, taker, token, amount, hashlock, timelocks, is_src))
}

/// Encodes the parameters of an escrow in their canonical form.
pub fn canonical_encoding(
    maker: &Address,
    taker: &Address,
    token: &Address,
    amount: i128,
    hashlock: &Bytes32,
    timelocks: &Vec<u64>,
    is_src: bool,
) -> (bytes: Vec<u8>)
    requires
        timelocks@.len() <= MAX_STAGES,
    ensures
        bytes@ == canonical_encoding_of(*maker, *taker, *token, amount, hashlock@, timelocks@, is_src),
        bytes@.len() <= MAX_ENCODING_LEN,
{
    proof {
        lemma_xdr_lengths(*maker, amount, hashlock@, timelocks@, is_src);
        lemma_xdr_lengths(*taker, amount, hashlock@, timelocks@, is_src);
        lemma_xdr_lengths(*token, amount, hashlock@, timelocks@, is_src);
    }
    let mut data: Vec<u8> = Vec::new();
    append_copy(&mut data, address_to_xdr(maker).as_slice());
    append_copy(&mut data, address_to_xdr(taker).as_slice());
    append_copy(&mut data, address_to_xdr(token).as_slice());
    append_copy(&mut data, i128_to_xdr(amount).as_slice());
    append_copy(&mut data, bytes32_to_xdr(hashlock).as_slice());
    append_copy(&mut data, u64_seq_to_xdr(timelocks).as_slice());
    append_copy(&mut data, bool_to_xdr(is_src).as_slice());
    assert(data@ =~= canonical_encoding_of(*maker, *taker, *token, amount, hashlock@, timelocks@, is_src));
    data
}

/// Computes the order hash: the Keccak-256 digest of the canonical encoding
/// of the parameters. The same parameters always give the same hash.
pub fn order_hash(
    maker: &Address,
    taker: &Address,
    token: &Address,
    amount: i128,
    hashlock: &Bytes32,
    timelocks: &Vec<u64>,
    is_src: bool,
) -> (hash: Bytes32)
    requires
        timelocks@.len() <= MAX_STAGES,
    ensures
        hash@ == order_hash_of(*maker, *taker, *token, amount, hashlock@, timelocks@, is_src),
{
    let data = canonical_encoding(maker, taker, token, amount, hashlock, timelocks, is_src);
    keccak256(&data)
}

/// Seven pieces in a row are the first piece and then the other six.
proof fn lemma_regroup(a: Seq<u8>, b: Seq<u8>, c: Seq<u8>, d: Seq<u8>, e: Seq<u8>, f: Seq<u8>, g: Seq<u8>)
    ensures
        a + b + c + d + e + f + g == a + (b + (c + (d + (e + (f + g))))),
{
    assert(a + b + c + d + e + f + g =~= a + (b + (c + (d + (e + (f + g))))));
}

/// The canonical encoding has a fixed layout with no field left out or moved,
/// so different parameters never share an encoding.
pub proof fn lemma_encoding_is_injective(first: OrderParameters, second: OrderParameters)
    requires
        first.well_formed(),
        second.well_formed(),
        first.encoding() == second.encoding(),
    ensures
        first == second,
{
    let side = xdr_of_bool(first.is_src);
    let deadlines = xdr_of_u64_seq(first.timelocks) + side;
    let lock = xdr_of_bytes32(first.hashlock) + deadlines;
    let amount = xdr_of_i128(first.amount) + lock;
    let token = xdr_of_address(first.token) + amount;
    let taker = xdr_of_address(first.taker) + token;
    let other_side = xdr_of_bool(second.is_src);
    let other_deadlines = xdr_of_u64_seq(second.timelocks) + other_side;
    let other_lock = xdr_of_bytes32(second.hashlock) + other_deadlines;
    let other_amount = xdr_of_i128(second.amount) + other_lock;
    let other_token = xdr_of_address(second.token) + other_amount;
    let other_taker = xdr_of_address(second.taker) + other_token;
    lemma_regroup(
        xdr_of_address(first.maker),
        xdr_of_address(first.taker),
        xdr_of_address(first.token),
        xdr_of_i128(first.amount),
        xdr_of_bytes32(first.hashlock),
        xdr_of_u64_seq(first.timelocks),
        side,
    );
    lemma_regroup(
        xdr_of_address(second.maker),
        xdr_of_address(second.taker),
        xdr_of_address(second.token),
        xdr_of_i128(second.amount),
        xdr_of_bytes32(second.hashlock),
        xdr_of_u64_seq(second.timelocks),
        other_side,
    );
    lemma_address_piece(first.maker, taker, second.maker, other_taker);
    lemma_address_piece(first.taker, token, second.taker, other_token);
    lemma_address_piece(first.token, amount, second.token, other_amount);
    lemma_i128_piece(first.amount, lock, second.amount, other_lock);
    lemma_bytes32_piece(first.hashlock, deadlines, second.hashlock, other_deadlines);
    lemma_u64_seq_piece(first.timelocks, side, second.timelocks, other_side);
    lemma_bool_piece(first.is_src, second.is_src);
}

/// Different parameters get the same order hash only where Keccak-256
/// collides.
pub proof fn lemma_other_parameters_need_collision(first: OrderParameters, second: OrderParameters)
    requires
        first.well_formed(),
        second.well_formed(),
        first != second,
        first.order_hash() == second.order_hash(),
    ensures
        collision_exists(),
{
    if first.encoding() == second.encoding() {
        lemma_encoding_is_injective(first, second);
    } else {
        assert(is_collision(first.encoding(), second.encoding()));
    }
}

} // verus!
