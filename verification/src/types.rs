//! Plain values shared by every component.

use vstd::prelude::*;

verus! {

/// A 32-byte value: a digest, a hashlock, a Merkle node or a key.
pub type Bytes32 = [u8; 32];

/// Whether an address names an account or a contract.
#[derive(Clone, Copy, Debug, PartialEq, Eq, Structural)]
pub enum AddressKind {
    Account,
    Contract,
}

/// A ledger address: its kind and its 32-byte key.
#[derive(Clone, Copy, Debug, PartialEq, Eq)]
pub struct Address {
    pub kind: AddressKind,
    pub key: Bytes32,
}

/// Byte-for-byte comparison of two 32-byte values.
pub fn bytes32_eq(a: &Bytes32, b: &Bytes32) -> (same: bool)
    ensures
        same == (a@ == b@),
        same == (*a == *b),
{
    let mut i: usize = 0;
    while i < 32
        invariant
            i <= 32,
            forall|j: int| 0 <= j < i ==> a@[j] == b@[j],
        decreases 32 - i,
    {
        if a[i] != b[i] {
            return false;
        }
        i += 1;
    }
    assert(a@ =~= b@);
    assert(*a =~= *b);
    true
}

/// Thirty-two zero bytes.
pub fn zero_bytes32() -> (z: Bytes32)
    ensures
        forall|j: int| 0 <= j < 32 ==> z@[j] == 0u8,
{
    [0u8; 32]
}

/// Appends a copy of each item of `tail` to `buffer`, in order.
pub fn append_copy<T: Copy>(buffer: &mut Vec<T>, tail: &[T])
    ensures
        final(buffer)@ == old(buffer)@ + tail@,
{
    let mut i: usize = 0;
    while i < tail.len()
        invariant
            i <= tail@.len(),
            buffer@ == old(buffer)@ + tail@.take(i as int),
        decreases tail@.len() - i,
    {
        buffer.push(tail[i]);
        assert(tail@.take(i + 1) =~= tail@.take(i as int).push(tail@[i as int]));
        i += 1;
    }
    assert(tail@.take(tail@.len() as int) =~= tail@);
}

/// A vector with a copy of each item of `source`, in order.
pub fn copy_of<T: Copy>(source: &[T]) -> (copy: Vec<T>)
    ensures
        copy@ == source@,
{
    let mut copy: Vec<T> = Vec::new();
    append_copy(&mut copy, source);
    assert(copy@ =~= source@);
    copy
}

impl Address {
    /// Whether two addresses are the same: the same kind and the same key.
    pub fn same_as(&self, other: &Address) -> (same: bool)
        ensures
            same == (*self == *other),
    {
        self.kind == other.kind && bytes32_eq(&self.key, &other.key)
    }
}

} // verus!
