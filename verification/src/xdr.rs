//! The ledger's wire form of the values that an order hash is made of.
//!
//! Every value is written as a 4-byte tag that names its kind and then its
//! content, numbers with the highest byte first.

use soroban_sdk::xdr::{AccountId, ContractId, PublicKey, ScAddress, ToXdr, Uint256};
use vstd::prelude::*;

use crate::types::{Address, AddressKind, Bytes32};

verus! {

/// Most stage deadlines that one escrow carries: the seven stages of a
/// record that spans both legs.
pub const MAX_STAGES: usize = 7;

/// 256^len.
pub open spec fn pow256(len: nat) -> nat
    decreases len,
{
    if len == 0 {
        1
    } else {
        256 * pow256((len - 1) as nat)
    }
}

/// The lowest `len` bytes of `value`, the highest first.
pub open spec fn be_bytes(value: nat, len: nat) -> Seq<u8>
    decreases len,
{
    if len == 0 {
        Seq::empty()
    } else {
        be_bytes(value / 256, (len - 1) as nat).push((value % 256) as u8)
    }
}

/// A signed 128-bit number as the unsigned number with the same bits.
pub open spec fn i128_bits(value: i128) -> nat {
    if value >= 0 {
        value as nat
    } else {
        (value + 0x1_0000_0000_0000_0000_0000_0000_0000_0000) as nat
    }
}

/// Wire form of an address: the tag 18, the kind, for an account the key type
/// 0, and the 32-byte key.
pub open spec fn xdr_of_address(address: Address) -> Seq<u8> {
    match address.kind {
        AddressKind::Account => seq![0u8, 0u8, 0u8, 18u8, 0u8, 0u8, 0u8, 0u8, 0u8, 0u8, 0u8, 0u8] + address.key@,
        AddressKind::Contract => seq![0u8, 0u8, 0u8, 18u8, 0u8, 0u8, 0u8, 1u8] + address.key@,
    }
}

/// Wire form of a signed 128-bit amount: the tag 10 and the 16 bytes of the
/// number.
pub open spec fn xdr_of_i128(value: i128) -> Seq<u8> {
    seq![0u8, 0u8, 0u8, 10u8] + be_bytes(i128_bits(value), 16)
}

/// Wire form of a 32-byte string: the tag 13, the length 32 and the bytes.
pub open spec fn xdr_of_bytes32(value: Seq<u8>) -> Seq<u8> {
    seq![0u8, 0u8, 0u8, 13u8, 0u8, 0u8, 0u8, 32u8] + value
}

/// Wire form of an unsigned 64-bit number: the tag 5 and the 8 bytes of the
/// number.
pub open spec fn xdr_of_u64(value: u64) -> Seq<u8> {
    seq![0u8, 0u8, 0u8, 5u8] + be_bytes(value as nat, 8)
}

/// The wire forms of the numbers of a vector, one after the other.
pub open spec fn xdr_of_u64_items(values: Seq<u64>) -> Seq<u8>
    decreases values.len(),
{
    if values.len() == 0 {
        Seq::empty()
    } else {
        xdr_of_u64_items(values.drop_last()) + xdr_of_u64(values.last())
    }
}

/// Wire form of a vector of unsigned 64-bit numbers: the tag 16, the marker 1
/// of a vector that is there, the count, and each number in its wire form.
pub open spec fn xdr_of_u64_seq(values: Seq<u64>) -> Seq<u8> {
    seq![0u8, 0u8, 0u8, 16u8, 0u8, 0u8, 0u8, 1u8] + be_bytes(values.len(), 4) + xdr_of_u64_items(values)
}

/// Wire form of a boolean: the tag 0 and the value as a 4-byte number.
pub open spec fn xdr_of_bool(value: bool) -> Seq<u8> {
    if value {
        seq![0u8, 0u8, 0u8, 0u8, 0u8, 0u8, 0u8, 1u8]
    } else {
        seq![0u8, 0u8, 0u8, 0u8, 0u8, 0u8, 0u8, 0u8]
    }
}

/// Calls `soroban_sdk::xdr::ToXdr::to_xdr` on a `soroban_sdk::Address`.
///
/// Trusted: the bytes are the tag of an address, the kind of the address,
/// for an account the type of its key, and the 32-byte key.
#[verifier::external_body]
pub(crate) fn address_to_xdr(address: &Address) -> (bytes: Vec<u8>)
    ensures
        bytes@ == xdr_of_address(*address),
{
    let env = soroban_sdk::Env::default();
    let sc = match address.kind {
        AddressKind::Account => ScAddress::Account(AccountId(PublicKey::PublicKeyTypeEd25519(Uint256(address.key)))),
        AddressKind::Contract => ScAddress::Contract(ContractId(soroban_sdk::xdr::Hash(address.key))),
    };
    let host: soroban_sdk::Address = soroban_sdk::TryFromVal::try_from_val(&env, &sc).unwrap();
    host.to_xdr(&env).iter().collect()
}

/// Calls `soroban_sdk::xdr::ToXdr::to_xdr` on an `i128`.
///
/// Trusted: the bytes are the tag of a signed 128-bit number and the 16
/// bytes of the number in two's complement, the highest first.
#[verifier::external_body]
pub(crate) fn i128_to_xdr(value: i128) -> (bytes: Vec<u8>)
    ensures
        bytes@ == xdr_of_i128(value),
{
    let env = soroban_sdk::Env::default();
    value.to_xdr(&env).iter().collect()
}

/// Calls `soroban_sdk::xdr::ToXdr::to_xdr` on a `soroban_sdk::BytesN<32>`.
///
/// Trusted: the bytes are the tag of a byte string, the length 32 and the 32
/// bytes.
#[verifier::external_body]
pub(crate) fn bytes32_to_xdr(value: &Bytes32) -> (bytes: Vec<u8>)
    ensures
        bytes@ == xdr_of_bytes32(value@),
{
    let env = soroban_sdk::Env::default();
    soroban_sdk::BytesN::from_array(&env, value).to_xdr(&env).iter().collect()
}

/// Calls `soroban_sdk::xdr::ToXdr::to_xdr` on a `soroban_sdk::Vec<u64>`.
///
/// Trusted: the bytes are the tag of a vector, the marker of a vector that
/// is there, the count, and for each number, in order, the tag of an unsigned
/// 64-bit number and its 8 bytes, the highest first. The bound on the count
/// keeps the call inside the default budget of the host.
#[verifier::external_body]
pub(crate) fn u64_seq_to_xdr(values: &Vec<u64>) -> (bytes: Vec<u8>)
    requires
        values@.len() <= MAX_STAGES,
    ensures
        bytes@ == xdr_of_u64_seq(values@),
{
    let env = soroban_sdk::Env::default();
    soroban_sdk::Vec::from_slice(&env, values.as_slice()).to_xdr(&env).iter().collect()
}

/// Calls `soroban_sdk::xdr::ToXdr::to_xdr` on a `bool`.
///
/// Trusted: the bytes are the tag of a boolean and the value as a 4-byte
/// number, 1 for true.
#[verifier::external_body]
pub(crate) fn bool_to_xdr(value: bool) -> (bytes: Vec<u8>)
    ensures
        bytes@ == xdr_of_bool(value),
{
    let env = soroban_sdk::Env::default();
    value.to_xdr(&env).iter().collect()
}

/// `be_bytes` gives `len` bytes.
pub proof fn lemma_be_bytes_len(value: nat, len: nat)
    ensures
        be_bytes(value, len).len() == len,
    decreases len,
{
    if len > 0 {
        lemma_be_bytes_len(value / 256, (len - 1) as nat);
    }
}

/// Numbers that fit `len` bytes and have the same bytes are the same.
pub proof fn lemma_be_bytes_injective(a: nat, b: nat, len: nat)
    requires
        a < pow256(len),
        b < pow256(len),
        be_bytes(a, len) == be_bytes(b, len),
    ensures
        a == b,
    decreases len,
{
    if len > 0 {
        let shorter = (len - 1) as nat;
        let high_a = be_bytes(a / 256, shorter);
        let high_b = be_bytes(b / 256, shorter);
        lemma_be_bytes_len(a / 256, shorter);
        lemma_be_bytes_len(b / 256, shorter);
        assert(high_a =~= be_bytes(a, len).drop_last());
        assert(high_b =~= be_bytes(b, len).drop_last());
        assert(be_bytes(a, len).last() == (a % 256) as u8);
        assert(be_bytes(b, len).last() == (b % 256) as u8);
        lemma_be_bytes_injective(a / 256, b / 256, shorter);
    }
}

/// The wire forms of `count` numbers take 12 bytes each.
pub proof fn lemma_u64_items_len(values: Seq<u64>)
    ensures
        xdr_of_u64_items(values).len() == 12 * values.len(),
    decreases values.len(),
{
    if values.len() > 0 {
        lemma_u64_items_len(values.drop_last());
        lemma_be_bytes_len(values.last() as nat, 8);
    }
}

/// The lengths of the wire forms.
pub proof fn lemma_xdr_lengths(address: Address, amount: i128, bytes: Seq<u8>, values: Seq<u64>, flag: bool)
    ensures
        xdr_of_address(address).len() == (if address.kind == AddressKind::Account {
            44nat
        } else {
            40nat
        }),
        xdr_of_i128(amount).len() == 20,
        xdr_of_bytes32(bytes).len() == 8 + bytes.len(),
        xdr_of_u64_seq(values).len() == 12 + 12 * values.len(),
        xdr_of_bool(flag).len() == 8,
{
    lemma_be_bytes_len(i128_bits(amount), 16);
    lemma_be_bytes_len(values.len(), 4);
    lemma_u64_items_len(values);
}

/// Equal byte strings that start with pieces of one length have the same
/// piece and the same rest.
pub proof fn lemma_same_piece(a: Seq<u8>, x: Seq<u8>, b: Seq<u8>, y: Seq<u8>)
    requires
        a + x == b + y,
        a.len() == b.len(),
    ensures
        a == b,
        x == y,
{
    assert(a =~= (a + x).subrange(0, a.len() as int));
    assert(b =~= (b + y).subrange(0, b.len() as int));
    assert(x =~= (a + x).subrange(a.len() as int, (a + x).len() as int));
    assert(y =~= (b + y).subrange(b.len() as int, (b + y).len() as int));
}

/// The wire form of an address ends where it ends for no other address: two
/// byte strings that start with the wire forms of addresses and are equal
/// start with the same address.
pub proof fn lemma_address_piece(a: Address, x: Seq<u8>, b: Address, y: Seq<u8>)
    requires
        xdr_of_address(a) + x == xdr_of_address(b) + y,
    ensures
        a == b,
        x == y,
{
    let first = xdr_of_address(a);
    let second = xdr_of_address(b);
    assert((first + x)[7] == first[7]);
    assert((second + y)[7] == second[7]);
    assert(a.kind == b.kind);
    lemma_same_piece(first, x, second, y);
    assert(a.key@ =~= first.subrange(first.len() - 32, first.len() as int));
    assert(b.key@ =~= second.subrange(second.len() - 32, second.len() as int));
    assert(a.key =~= b.key);
}

/// Two byte strings that start with the wire forms of amounts and are equal
/// start with the same amount.
pub proof fn lemma_i128_piece(a: i128, x: Seq<u8>, b: i128, y: Seq<u8>)
    requires
        xdr_of_i128(a) + x == xdr_of_i128(b) + y,
    ensures
        a == b,
        x == y,
{
    let first = xdr_of_i128(a);
    let second = xdr_of_i128(b);
    lemma_be_bytes_len(i128_bits(a), 16);
    lemma_be_bytes_len(i128_bits(b), 16);
    lemma_same_piece(first, x, second, y);
    assert(be_bytes(i128_bits(a), 16) =~= first.subrange(4, 20));
    assert(be_bytes(i128_bits(b), 16) =~= second.subrange(4, 20));
    assert(pow256(16) == 0x1_0000_0000_0000_0000_0000_0000_0000_0000) by {
        reveal_with_fuel(pow256, 17);
    }
    lemma_be_bytes_injective(i128_bits(a), i128_bits(b), 16);
}

/// Two byte strings that start with the wire forms of 32-byte strings and
/// are equal start with the same 32 bytes.
pub proof fn lemma_bytes32_piece(a: Seq<u8>, x: Seq<u8>, b: Seq<u8>, y: Seq<u8>)
    requires
        a.len() == 32,
        b.len() == 32,
        xdr_of_bytes32(a) + x == xdr_of_bytes32(b) + y,
    ensures
        a == b,
        x == y,
{
    let first = xdr_of_bytes32(a);
    let second = xdr_of_bytes32(b);
    lemma_same_piece(first, x, second, y);
    assert(a =~= first.subrange(8, 40));
    assert(b =~= second.subrange(8, 40));
}

/// Vectors of one length with the same wire forms of their numbers are the
/// same.
pub proof fn lemma_u64_items_injective(a: Seq<u64>, b: Seq<u64>)
    requires
        a.len() == b.len(),
        xdr_of_u64_items(a) == xdr_of_u64_items(b),
    ensures
        a == b,
    decreases a.len(),
{
    if a.len() > 0 {
        let first = xdr_of_u64(a.last());
        let second = xdr_of_u64(b.last());
        lemma_u64_items_len(a.drop_last());
        lemma_u64_items_len(b.drop_last());
        lemma_be_bytes_len(a.last() as nat, 8);
        lemma_be_bytes_len(b.last() as nat, 8);
        lemma_same_piece(xdr_of_u64_items(a.drop_last()), first, xdr_of_u64_items(b.drop_last()), second);
        assert(be_bytes(a.last() as nat, 8) =~= first.subrange(4, 12));
        assert(be_bytes(b.last() as nat, 8) =~= second.subrange(4, 12));
        assert(pow256(8) == 0x1_0000_0000_0000_0000) by {
            reveal_with_fuel(pow256, 9);
        }
        lemma_be_bytes_injective(a.last() as nat, b.last() as nat, 8);
        lemma_u64_items_injective(a.drop_last(), b.drop_last());
        assert(a =~= a.drop_last().push(a.last()));
        assert(b =~= b.drop_last().push(b.last()));
    } else {
        assert(a =~= b);
    }
}

/// Two byte strings that start with the wire forms of vectors and are equal
/// start with the same vector, for vectors whose count fits its 4 bytes.
pub proof fn lemma_u64_seq_piece(a: Seq<u64>, x: Seq<u8>, b: Seq<u64>, y: Seq<u8>)
    requires
        a.len() <= u32::MAX,
        b.len() <= u32::MAX,
        xdr_of_u64_seq(a) + x == xdr_of_u64_seq(b) + y,
    ensures
        a == b,
        x == y,
{
    let first = xdr_of_u64_seq(a);
    let second = xdr_of_u64_seq(b);
    lemma_be_bytes_len(a.len(), 4);
    lemma_be_bytes_len(b.len(), 4);
    lemma_u64_items_len(a);
    lemma_u64_items_len(b);
    assert(be_bytes(a.len(), 4) =~= (first + x).subrange(8, 12));
    assert(be_bytes(b.len(), 4) =~= (second + y).subrange(8, 12));
    assert(pow256(4) == 0x1_0000_0000) by {
        reveal_with_fuel(pow256, 5);
    }
    lemma_be_bytes_injective(a.len(), b.len(), 4);
    lemma_same_piece(first, x, second, y);
    assert(xdr_of_u64_items(a) =~= first.subrange(12, first.len() as int));
    assert(xdr_of_u64_items(b) =~= second.subrange(12, second.len() as int));
    lemma_u64_items_injective(a, b);
}

/// Booleans with the same wire form are the same.
pub proof fn lemma_bool_piece(a: bool, b: bool)
    requires
        xdr_of_bool(a) == xdr_of_bool(b),
    ensures
        a == b,
{
    assert(xdr_of_bool(a)[7] == xdr_of_bool(b)[7]);
}

} // verus!
