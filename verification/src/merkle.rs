//! Merkle proofs for escrows that are filled in parts.

use soroban_sdk::BytesN;
use stellar_contract_utils::crypto::keccak::Keccak256;
use stellar_contract_utils::crypto::merkle::Verifier;
use vstd::prelude::*;

use crate::hashing::{
    collision_exists, cycle_exists, digests_have_32_bytes, is_collision, is_cycle, keccak256_digest,
};
use crate::types::Bytes32;

verus! {

/// Longest proof that is looked at: a tree of up to 2^31 leaves.
pub const MAX_PROOF_LEN: usize = 31;

/// Number of leaves of a complete tree of the given depth: 2^depth.
pub open spec fn leaf_capacity(depth: nat) -> nat
    decreases depth,
{
    if depth == 0 {
        1
    } else {
        2 * leaf_capacity((depth - 1) as nat)
    }
}

/// The node above `node` and its `sibling`. The lowest bit of `index` says on
/// which side `node` stands: on the left when it is 0.
pub open spec fn parent_of(node: Seq<u8>, sibling: Seq<u8>, index: nat) -> Seq<u8> {
    if index % 2 == 0 {
        keccak256_digest(node + sibling)
    } else {
        keccak256_digest(sibling + node)
    }
}

/// The root that a proof leads to from `leaf` at position `index`, folding in
/// one sibling for each level, the lowest first.
pub open spec fn rebuilt_root(proof: Seq<Seq<u8>>, leaf: Seq<u8>, index: nat) -> Seq<u8>
    decreases proof.len(),
{
    if proof.len() == 0 {
        leaf
    } else {
        rebuilt_root(proof.drop_first(), parent_of(leaf, proof[0], index), index / 2)
    }
}

/// The siblings of a proof as byte strings.
pub open spec fn proof_nodes(proof: Seq<Bytes32>) -> Seq<Seq<u8>> {
    Seq::new(proof.len(), |i: int| proof[i]@)
}

/// Whether a proof shows `leaf` at position `index` under `root`.
pub open spec fn proof_accepted(proof: Seq<Seq<u8>>, root: Seq<u8>, leaf: Seq<u8>, index: nat) -> bool {
    &&& proof.len() <= MAX_PROOF_LEN
    &&& index < leaf_capacity(proof.len())
    &&& rebuilt_root(proof, leaf, index) == root
}

/// Calls `stellar_contract_utils::crypto::merkle::Verifier::<Keccak256>::verify_with_index`.
///
/// Trusted: the call hashes `leaf` with each sibling in turn, the node on the
/// left where the current index is even, halves the index after each level,
/// and compares the last digest with `root`. It aborts on a proof of 32 or
/// more siblings and on an index of 2^len or more, which `requires` leaves out.
#[verifier::external_body]
fn host_verify_with_index(proof: &Vec<Bytes32>, root: &Bytes32, leaf: &Bytes32, index: u32) -> (accepted: bool)
    requires
        proof@.len() <= MAX_PROOF_LEN,
        index < leaf_capacity(proof@.len()),
    ensures
        accepted == (rebuilt_root(proof_nodes(proof@), leaf@, index as nat) == root@),
{
    let env = soroban_sdk::Env::default();
    let mut siblings: soroban_sdk::Vec<BytesN<32>> = soroban_sdk::Vec::new(&env);
    for node in proof.iter() {
        siblings.push_back(BytesN::from_array(&env, node));
    }
    let root = BytesN::from_array(&env, root);
    let leaf = BytesN::from_array(&env, leaf);
    Verifier::<Keccak256>::verify_with_index(&env, siblings, root, leaf, index)
}

/// Whether `index` names a leaf of a tree of depth `depth`, for a depth of at
/// most `MAX_PROOF_LEN`.
fn index_in_tree(index: u32, depth: usize) -> (inside: bool)
    requires
        depth <= MAX_PROOF_LEN,
    ensures
        inside == (index < leaf_capacity(depth as nat)),
{
    let mut capacity: u64 = 1;
    let mut level: usize = 0;
    while level < depth
        invariant
            level <= depth <= MAX_PROOF_LEN,
            capacity == leaf_capacity(level as nat),
            capacity <= 0x8000_0000,
            level < 31 ==> capacity <= 0x4000_0000,
        decreases depth - level,
    {
        proof {
            lemma_capacity_bound(level as nat);
            lemma_capacity_bound((level + 1) as nat);
        }
        capacity = capacity * 2;
        level += 1;
    }
    (index as u64) < capacity
}

/// 2^depth is at most 2^31 for a depth of at most 31, and at most 2^30 below
/// that.
proof fn lemma_capacity_bound(depth: nat)
    requires
        depth <= 31,
    ensures
        1 <= leaf_capacity(depth) <= 0x8000_0000,
        depth < 31 ==> leaf_capacity(depth) <= 0x4000_0000,
{
    reveal_with_fuel(leaf_capacity, 32);
}

/// Checks a Merkle proof: rebuilds the root from `leaf` and the siblings in
/// `proof`, the side at each level taken from the bits of `index`, and
/// compares it with `root`. Anything that does not match is refused: a proof
/// that is too long, an index outside the tree, a different root.
pub fn verify(proof: &Vec<Bytes32>, root: &Bytes32, leaf: &Bytes32, index: u32) -> (accepted: bool)
    ensures
        accepted == proof_accepted(proof_nodes(proof@), root@, leaf@, index as nat),
{
    if proof.len() > MAX_PROOF_LEN {
        return false;
    }
    if !index_in_tree(index, proof.len()) {
        return false;
    }
    host_verify_with_index(proof, root, leaf, index)
}

/// The level above `nodes` in a complete tree: node `i` is the digest of
/// nodes `2i` and `2i + 1`.
pub open spec fn level_above(nodes: Seq<Seq<u8>>) -> Seq<Seq<u8>> {
    Seq::new(nodes.len() / 2, |i: int| keccak256_digest(nodes[2 * i] + nodes[2 * i + 1]))
}

/// The root of the complete tree of the given depth over `leaves`.
pub open spec fn tree_root(leaves: Seq<Seq<u8>>, depth: nat) -> Seq<u8>
    decreases depth,
{
    if depth == 0 {
        leaves[0]
    } else {
        tree_root(level_above(leaves), (depth - 1) as nat)
    }
}

/// Position of the node that shares its parent with the node at `index`.
pub open spec fn sibling_index(index: nat) -> int {
    if index % 2 == 0 {
        index as int + 1
    } else {
        index as int - 1
    }
}

/// The proof for the leaf at `index`: its sibling at each level, the lowest
/// first.
pub open spec fn tree_proof(leaves: Seq<Seq<u8>>, depth: nat, index: nat) -> Seq<Seq<u8>>
    decreases depth,
{
    if depth == 0 {
        Seq::empty()
    } else {
        seq![leaves[sibling_index(index)]] + tree_proof(level_above(leaves), (depth - 1) as nat, index / 2)
    }
}

/// A proof that is built from a complete tree leads from its leaf to the root
/// of that tree.
pub proof fn lemma_tree_proof_rebuilds_root(leaves: Seq<Seq<u8>>, depth: nat, index: nat)
    requires
        leaves.len() == leaf_capacity(depth),
        index < leaves.len(),
    ensures
        tree_proof(leaves, depth, index).len() == depth,
        rebuilt_root(tree_proof(leaves, depth, index), leaves[index as int], index) == tree_root(leaves, depth),
    decreases depth,
{
    if depth > 0 {
        let above = level_above(leaves);
        let rest = tree_proof(above, (depth - 1) as nat, index / 2);
        let proof = tree_proof(leaves, depth, index);
        lemma_tree_proof_rebuilds_root(above, (depth - 1) as nat, index / 2);
        assert(proof.drop_first() =~= rest);
        assert(parent_of(leaves[index as int], proof[0], index) == above[(index / 2) as int]) by {
            if index % 2 == 0 {
                assert(2 * (index / 2) == index);
            } else {
                assert(2 * (index / 2) + 1 == index);
            }
        }
    }
}

/// Every proof that is built from a tree of a depth within reach is accepted
/// for its own leaf, position and root.
pub proof fn lemma_honest_proof_is_accepted(leaves: Seq<Seq<u8>>, depth: nat, index: nat)
    requires
        depth <= MAX_PROOF_LEN,
        leaves.len() == leaf_capacity(depth),
        index < leaves.len(),
    ensures
        proof_accepted(tree_proof(leaves, depth, index), tree_root(leaves, depth), leaves[index as int], index),
{
    lemma_tree_proof_rebuilds_root(leaves, depth, index);
}

/// Two different leaves lead to the same root through the same siblings and
/// position only where Keccak-256 collides.
pub proof fn lemma_other_leaf_needs_collision(proof: Seq<Seq<u8>>, leaf: Seq<u8>, other: Seq<u8>, index: nat)
    requires
        leaf != other,
        rebuilt_root(proof, leaf, index) == rebuilt_root(proof, other, index),
    ensures
        collision_exists(),
    decreases proof.len(),
{
    if proof.len() > 0 {
        let sibling = proof[0];
        let up = parent_of(leaf, sibling, index);
        let other_up = parent_of(other, sibling, index);
        if up == other_up {
            if index % 2 == 0 {
                lemma_concat_differs_left(leaf, other, sibling);
                assert(is_collision(leaf + sibling, other + sibling));
            } else {
                lemma_concat_differs_right(sibling, leaf, other);
                assert(is_collision(sibling + leaf, sibling + other));
            }
        } else {
            lemma_other_leaf_needs_collision(proof.drop_first(), up, other_up, index / 2);
        }
    }
}

/// A proof in which one sibling was replaced leads to the same root from the
/// same leaf and position only where Keccak-256 collides.
pub proof fn lemma_other_sibling_needs_collision(
    proof: Seq<Seq<u8>>,
    level: int,
    replacement: Seq<u8>,
    leaf: Seq<u8>,
    index: nat,
)
    requires
        0 <= level < proof.len(),
        replacement != proof[level],
        rebuilt_root(proof, leaf, index) == rebuilt_root(proof.update(level, replacement), leaf, index),
    ensures
        collision_exists(),
    decreases proof.len(),
{
    let changed = proof.update(level, replacement);
    if level == 0 {
        let up = parent_of(leaf, proof[0], index);
        let other_up = parent_of(leaf, replacement, index);
        assert(changed.drop_first() =~= proof.drop_first());
        if up == other_up {
            if index % 2 == 0 {
                lemma_concat_differs_right(leaf, proof[0], replacement);
                assert(is_collision(leaf + proof[0], leaf + replacement));
            } else {
                lemma_concat_differs_left(proof[0], replacement, leaf);
                assert(is_collision(proof[0] + leaf, replacement + leaf));
            }
        } else {
            lemma_other_leaf_needs_collision(proof.drop_first(), up, other_up, index / 2);
        }
    } else {
        assert(changed.drop_first() =~= proof.drop_first().update(level - 1, replacement));
        lemma_other_sibling_needs_collision(
            proof.drop_first(),
            level - 1,
            replacement,
            parent_of(leaf, proof[0], index),
            index / 2,
        );
    }
}

/// The position of the node that is `levels` above the leaf at `index`.
pub open spec fn index_above(index: nat, levels: nat) -> nat
    decreases levels,
{
    if levels == 0 {
        index
    } else {
        index_above(index / 2, (levels - 1) as nat)
    }
}

/// A proof with one more sibling at its end leads to the node above the root
/// that the proof without it leads to.
pub proof fn lemma_one_more_sibling(proof: Seq<Seq<u8>>, extra: Seq<u8>, leaf: Seq<u8>, index: nat)
    ensures
        rebuilt_root(proof.push(extra), leaf, index) == parent_of(
            rebuilt_root(proof, leaf, index),
            extra,
            index_above(index, proof.len()),
        ),
    decreases proof.len(),
{
    let longer = proof.push(extra);
    if proof.len() == 0 {
        assert(longer.drop_first() =~= Seq::<Seq<u8>>::empty());
        assert(rebuilt_root(longer.drop_first(), parent_of(leaf, extra, index), index / 2) == parent_of(
            leaf,
            extra,
            index,
        ));
    } else {
        assert(longer.drop_first() =~= proof.drop_first().push(extra));
        lemma_one_more_sibling(proof.drop_first(), extra, parent_of(leaf, proof[0], index), index / 2);
    }
}

/// A proof leads to the same root with and without one more sibling at its
/// end only where a byte string is the digest of itself together with
/// another. So a proof that is accepted is refused once its last sibling is
/// dropped or one more is appended, unless there is such a string.
pub proof fn lemma_other_length_needs_cycle(proof: Seq<Seq<u8>>, extra: Seq<u8>, leaf: Seq<u8>, index: nat)
    requires
        rebuilt_root(proof.push(extra), leaf, index) == rebuilt_root(proof, leaf, index),
    ensures
        cycle_exists(),
{
    lemma_one_more_sibling(proof, extra, leaf, index);
    assert(is_cycle(rebuilt_root(proof, leaf, index), extra));
}

/// The node at `level` on the way from `leaf` at position `index` to the
/// root: the leaf itself at level 0.
pub open spec fn path_node(proof: Seq<Seq<u8>>, leaf: Seq<u8>, index: nat, level: nat) -> Seq<u8>
    decreases level,
{
    if level == 0 || proof.len() == 0 {
        leaf
    } else {
        path_node(proof.drop_first(), parent_of(leaf, proof[0], index), index / 2, (level - 1) as nat)
    }
}

/// Whether leaf and siblings have 32 bytes each.
pub open spec fn nodes_have_32_bytes(proof: Seq<Seq<u8>>, leaf: Seq<u8>) -> bool {
    &&& leaf.len() == 32
    &&& forall|level: int| 0 <= level < proof.len() ==> (#[trigger] proof[level]).len() == 32
}

/// Whether no node on the way from `leaf` at `index` to the root is the same
/// as its sibling. Where one is, the two can change places, and the proof
/// holds for a second position as well.
pub open spec fn no_twin_on_path(proof: Seq<Seq<u8>>, leaf: Seq<u8>, index: nat) -> bool {
    forall|level: nat| level < proof.len() ==> #[trigger] path_node(proof, leaf, index, level) != proof[level as int]
}

/// Two different nodes lead to the same root through the same siblings,
/// from whatever positions, only where Keccak-256 collides.
proof fn lemma_other_node_needs_collision(
    proof: Seq<Seq<u8>>,
    node: Seq<u8>,
    other: Seq<u8>,
    index: nat,
    other_index: nat,
)
    requires
        digests_have_32_bytes(),
        nodes_have_32_bytes(proof, node),
        other.len() == 32,
        node != other,
        rebuilt_root(proof, node, index) == rebuilt_root(proof, other, other_index),
    ensures
        collision_exists(),
    decreases proof.len(),
{
    if proof.len() > 0 {
        let sibling = proof[0];
        let up = parent_of(node, sibling, index);
        let other_up = parent_of(other, sibling, other_index);
        let left = if index % 2 == 0 {
            node + sibling
        } else {
            sibling + node
        };
        let other_left = if other_index % 2 == 0 {
            other + sibling
        } else {
            sibling + other
        };
        assert(left != other_left) by {
            if left == other_left {
                assert(node =~= left.subrange(0, 32) || node =~= left.subrange(32, 64));
                assert(other =~= other_left.subrange(0, 32) || other =~= other_left.subrange(32, 64));
                assert(sibling =~= left.subrange(0, 32) || sibling =~= left.subrange(32, 64));
                if index % 2 == other_index % 2 {
                    if index % 2 == 0 {
                        assert(node =~= left.subrange(0, 32));
                        assert(other =~= other_left.subrange(0, 32));
                    } else {
                        assert(node =~= left.subrange(32, 64));
                        assert(other =~= other_left.subrange(32, 64));
                    }
                } else if index % 2 == 0 {
                    assert(node =~= left.subrange(0, 32));
                    assert(sibling =~= other_left.subrange(0, 32));
                    assert(sibling =~= left.subrange(32, 64));
                    assert(other =~= other_left.subrange(32, 64));
                } else {
                    assert(sibling =~= left.subrange(0, 32));
                    assert(other =~= other_left.subrange(0, 32));
                    assert(node =~= left.subrange(32, 64));
                    assert(sibling =~= other_left.subrange(32, 64));
                }
            }
        }
        if up == other_up {
            assert(is_collision(left, other_left));
        } else {
            assert(nodes_have_32_bytes(proof.drop_first(), up)) by {
                assert forall|level: int| 0 <= level < proof.drop_first().len() implies (#[trigger] proof.drop_first()[level]).len()
                    == 32 by {
                    assert(proof.drop_first()[level] == proof[level + 1]);
                }
            }
            lemma_other_node_needs_collision(proof.drop_first(), up, other_up, index / 2, other_index / 2);
        }
    }
}

/// A proof leads from the same leaf to the same root for two different
/// positions in the tree only where Keccak-256 collides, as long as no node
/// on the way is the same as its sibling.
pub proof fn lemma_other_index_needs_collision(proof: Seq<Seq<u8>>, leaf: Seq<u8>, index: nat, other_index: nat)
    requires
        digests_have_32_bytes(),
        nodes_have_32_bytes(proof, leaf),
        no_twin_on_path(proof, leaf, index),
        index != other_index,
        index < leaf_capacity(proof.len()),
        other_index < leaf_capacity(proof.len()),
        rebuilt_root(proof, leaf, index) == rebuilt_root(proof, leaf, other_index),
    ensures
        collision_exists(),
    decreases proof.len(),
{
    if proof.len() > 0 {
        let sibling = proof[0];
        let rest = proof.drop_first();
        let up = parent_of(leaf, sibling, index);
        let other_up = parent_of(leaf, sibling, other_index);
        assert(path_node(proof, leaf, index, 0) == leaf);
        assert(leaf != sibling);
        assert(nodes_have_32_bytes(rest, up)) by {
            assert forall|level: int| 0 <= level < rest.len() implies (#[trigger] rest[level]).len() == 32 by {
                assert(rest[level] == proof[level + 1]);
            }
        }
        if index % 2 == other_index % 2 {
            assert(no_twin_on_path(rest, up, index / 2)) by {
                assert forall|level: nat| level < rest.len() implies #[trigger] path_node(rest, up, index / 2, level)
                    != rest[level as int] by {
                    assert(path_node(proof, leaf, index, level + 1) == path_node(rest, up, index / 2, level));
                    assert(rest[level as int] == proof[level as int + 1]);
                }
            }
            lemma_other_index_needs_collision(rest, up, index / 2, other_index / 2);
        } else {
            let left = leaf + sibling;
            let right = sibling + leaf;
            assert(left != right) by {
                if left == right {
                    assert(leaf =~= left.subrange(0, 32));
                    assert(sibling =~= right.subrange(0, 32));
                }
            }
            if up == other_up {
                assert(is_collision(left, right));
            } else {
                lemma_other_node_needs_collision(rest, up, other_up, index / 2, other_index / 2);
            }
        }
    }
}

/// Different byte strings stay different when the same bytes follow them.
proof fn lemma_concat_differs_left(a: Seq<u8>, b: Seq<u8>, tail: Seq<u8>)
    requires
        a != b,
    ensures
        a + tail != b + tail,
{
    if a + tail == b + tail {
        assert(a.len() == b.len()) by {
            assert((a + tail).len() == (b + tail).len());
        }
        assert forall|i: int| 0 <= i < a.len() implies a[i] == b[i] by {
            assert((a + tail)[i] == (b + tail)[i]);
        }
        assert(a =~= b);
    }
}

/// Different byte strings stay different when they follow the same bytes.
proof fn lemma_concat_differs_right(head: Seq<u8>, a: Seq<u8>, b: Seq<u8>)
    requires
        a != b,
    ensures
        head + a != head + b,
{
    if head + a == head + b {
        assert(a.len() == b.len()) by {
            assert((head + a).len() == (head + b).len());
        }
        assert forall|i: int| 0 <= i < a.len() implies a[i] == b[i] by {
            assert((head + a)[head.len() + i] == (head + b)[head.len() + i]);
        }
        assert(a =~= b);
    }
}

} // verus!
