//! What holds of every Merkle tree and proof built by this crate.
//!
//! A digest is shorter than most of its preimages, so distinct byte strings
//! with equal digests exist; nothing here denies that. The laws on tampering
//! and on reordering say that such a pair, among the few byte strings that
//! the two computations hash, is the only way around them.

use vstd::prelude::*;
use vstd::arithmetic::power2::pow2;
use vstd::arithmetic::power2::lemma_pow2_unfold;
use vstd::arithmetic::power2::lemma2_to64;
use vstd::seq_lib::to_multiset_len;
use vstd::seq_lib::to_multiset_contains;
use crate::hashing::MerkleHash;
use crate::hashing::blake2_256;
use crate::hashing::leaf_hash;
use crate::hashing::node_hash;
use crate::hashing::leaf_preimage;
use crate::hashing::node_preimage;
use crate::merkle::JamProofView;
use crate::merkle::leaf_level;
use crate::merkle::parent_level;
use crate::merkle::right_child;
use crate::merkle::level_root;
use crate::merkle::level_path;
use crate::merkle::sibling;
use crate::merkle::climb;
use crate::merkle::fold_path;
use crate::merkle::merkle_root;
use crate::merkle::proof_verifies;
use crate::merkle::inclusion_proof;

verus! {

/// Two different byte strings with the same digest.
pub open spec fn hash_collision(a: Seq<u8>, b: Seq<u8>) -> bool {
    a != b && blake2_256(a) == blake2_256(b)
}

/// The byte string that is hashed to climb from `node` at `index` past
/// `sib`.
pub open spec fn climb_preimage(node: MerkleHash, index: nat, sib: MerkleHash) -> Seq<u8> {
    if index % 2 == 0 {
        node_preimage(node, sib)
    } else {
        node_preimage(sib, node)
    }
}

/// `preimage` is hashed on the way up from `node` at `index` along `path`.
pub open spec fn path_hashes(
    node: MerkleHash,
    index: nat,
    path: Seq<MerkleHash>,
    preimage: Seq<u8>,
) -> bool
    decreases path.len(),
{
    path.len() > 0 && (preimage == climb_preimage(node, index, path[0]) || path_hashes(
        climb(node, index, path[0]),
        index / 2,
        path.drop_first(),
        preimage,
    ))
}

/// `preimage` is hashed when `proof` is checked: it is the preimage of the
/// leaf or of a node on the way up.
pub open spec fn proof_hashes(proof: JamProofView, preimage: Seq<u8>) -> bool {
    preimage == leaf_preimage(proof.justified_data) || path_hashes(
        leaf_hash(proof.justified_data),
        proof.leaf_index as nat,
        proof.proof_path,
        preimage,
    )
}

/// `preimage` is hashed when the levels above `level` are built.
pub open spec fn level_hashes(level: Seq<MerkleHash>, preimage: Seq<u8>) -> bool
    decreases level.len(),
{
    level.len() > 1 && ((exists|p: int|
        0 <= p < parent_level(level).len() && preimage == node_preimage(
            level[2 * p],
            right_child(level, p),
        )) || level_hashes(parent_level(level), preimage))
}

/// `preimage` is hashed when the tree over `items` is built: it is the
/// preimage of a leaf or of an inner node.
pub open spec fn tree_hashes(items: Seq<Seq<u8>>, preimage: Seq<u8>) -> bool {
    (exists|i: int| 0 <= i < items.len() && preimage == leaf_preimage(items[i]))
        || level_hashes(leaf_level(items), preimage)
}

/// Checking the two proofs hashes two different byte strings to the same
/// digest.
pub open spec fn proofs_collide(first: JamProofView, second: JamProofView) -> bool {
    exists|a: Seq<u8>, b: Seq<u8>|
        proof_hashes(first, a) && proof_hashes(second, b) && hash_collision(a, b)
}

/// Building the two trees hashes two different byte strings to the same
/// digest.
pub open spec fn trees_collide(first: Seq<Seq<u8>>, second: Seq<Seq<u8>>) -> bool {
    exists|a: Seq<u8>, b: Seq<u8>|
        tree_hashes(first, a) && tree_hashes(second, b) && hash_collision(a, b)
}

proof fn lemma_leaf_preimage_injective(a: Seq<u8>, b: Seq<u8>)
    requires
        leaf_preimage(a) == leaf_preimage(b),
    ensures
        a == b,
{
    assert(leaf_preimage(a).subrange(1, leaf_preimage(a).len() as int) =~= a);
    assert(leaf_preimage(b).subrange(1, leaf_preimage(b).len() as int) =~= b);
}

proof fn lemma_node_preimage_injective(
    l1: MerkleHash,
    r1: MerkleHash,
    l2: MerkleHash,
    r2: MerkleHash,
)
    requires
        node_preimage(l1, r1) == node_preimage(l2, r2),
    ensures
        l1 == l2,
        r1 == r2,
{
    let p1 = node_preimage(l1, r1);
    let p2 = node_preimage(l2, r2);
    assert forall|i: int| 0 <= i < 32 implies l1[i] == l2[i] by {
        assert(p1[1 + i] == l1@[i]);
        assert(p2[1 + i] == l2@[i]);
    }
    assert forall|i: int| 0 <= i < 32 implies r1[i] == r2[i] by {
        assert(p1[33 + i] == r1@[i]);
        assert(p2[33 + i] == r2@[i]);
    }
    assert(l1 =~= l2);
    assert(r1 =~= r2);
}

proof fn lemma_node_hash_binds(l1: MerkleHash, r1: MerkleHash, l2: MerkleHash, r2: MerkleHash)
    requires
        node_hash(l1, r1) == node_hash(l2, r2),
        l1 != l2 || r1 != r2,
    ensures
        hash_collision(node_preimage(l1, r1), node_preimage(l2, r2)),
{
    if node_preimage(l1, r1) == node_preimage(l2, r2) {
        lemma_node_preimage_injective(l1, r1, l2, r2);
    }
}

proof fn lemma_leaf_hash_binds(a: Seq<u8>, b: Seq<u8>)
    requires
        leaf_hash(a) == leaf_hash(b),
        a != b,
    ensures
        hash_collision(leaf_preimage(a), leaf_preimage(b)),
{
    if leaf_preimage(a) == leaf_preimage(b) {
        lemma_leaf_preimage_injective(a, b);
    }
}

proof fn lemma_level_round_trip(level: Seq<MerkleHash>, index: int)
    requires
        0 <= index < level.len(),
    ensures
        fold_path(level[index], index as nat, level_path(level, index)) == level_root(level),
        index < pow2(level_path(level, index).len()),
    decreases level.len(),
{
    if level.len() == 1 {
        lemma2_to64();
    } else {
        let parents = parent_level(level);
        let path = level_path(level, index);
        let rest = level_path(parents, index / 2);
        assert(path == seq![sibling(level, index)] + rest);
        assert(path[0] == sibling(level, index));
        assert(path.drop_first() =~= rest);
        assert(climb(level[index], index as nat, path[0]) == parents[index / 2]);
        lemma_level_round_trip(parents, index / 2);
        lemma_pow2_unfold(path.len());
    }
}

/// Round trip: the proof generated for any item of a non-empty sequence
/// verifies against the root built over that sequence.
pub proof fn lemma_round_trip(items: Seq<Seq<u8>>, index: int)
    requires
        0 <= index < items.len(),
        index <= u64::MAX,
    ensures
        proof_verifies(inclusion_proof(items, index), merkle_root(items)),
{
    lemma_level_round_trip(leaf_level(items), index);
}

proof fn lemma_fold_binds(
    n1: MerkleHash,
    p1: Seq<MerkleHash>,
    n2: MerkleHash,
    p2: Seq<MerkleHash>,
    index: nat,
) -> (found: (Seq<u8>, Seq<u8>))
    requires
        p1.len() == p2.len(),
        n1 != n2 || p1 != p2,
        fold_path(n1, index, p1) == fold_path(n2, index, p2),
    ensures
        path_hashes(n1, index, p1, found.0),
        path_hashes(n2, index, p2, found.1),
        hash_collision(found.0, found.1),
    decreases p1.len(),
{
    if p1.len() == 0 {
        assert(p1 =~= p2);
        (Seq::empty(), Seq::empty())
    } else {
        let up1 = climb(n1, index, p1[0]);
        let up2 = climb(n2, index, p2[0]);
        if up1 != up2 || p1.drop_first() != p2.drop_first() {
            lemma_fold_binds(up1, p1.drop_first(), up2, p2.drop_first(), index / 2)
        } else {
            if p1[0] == p2[0] && n1 == n2 {
                assert(p1 =~= seq![p1[0]] + p1.drop_first());
                assert(p2 =~= seq![p2[0]] + p2.drop_first());
            }
            if index % 2 == 0 {
                lemma_node_hash_binds(n1, p1[0], n2, p2[0]);
            } else {
                lemma_node_hash_binds(p1[0], n1, p2[0], n2);
            }
            (climb_preimage(n1, index, p1[0]), climb_preimage(n2, index, p2[0]))
        }
    }
}

/// Tamper detection: take a proof that verifies against `root` and change
/// its justified data or any sibling of its path, keeping the position and
/// the length of the path. The changed proof is rejected, unless checking
/// the two proofs hashes two different byte strings to the same digest.
pub proof fn lemma_tamper_detected(genuine: JamProofView, tampered: JamProofView, root: MerkleHash)
    requires
        proof_verifies(genuine, root),
        tampered.leaf_index == genuine.leaf_index,
        tampered.proof_path.len() == genuine.proof_path.len(),
        tampered.justified_data != genuine.justified_data || tampered.proof_path
            != genuine.proof_path,
    ensures
        proof_verifies(tampered, root) ==> proofs_collide(genuine, tampered),
{
    if proof_verifies(tampered, root) {
        let l1 = leaf_hash(genuine.justified_data);
        let l2 = leaf_hash(tampered.justified_data);
        if l1 == l2 && genuine.justified_data != tampered.justified_data {
            lemma_leaf_hash_binds(genuine.justified_data, tampered.justified_data);
            assert(proof_hashes(genuine, leaf_preimage(genuine.justified_data)));
            assert(proof_hashes(tampered, leaf_preimage(tampered.justified_data)));
        } else {
            let found = lemma_fold_binds(
                l1,
                genuine.proof_path,
                l2,
                tampered.proof_path,
                genuine.leaf_index as nat,
            );
            assert(proof_hashes(genuine, found.0));
            assert(proof_hashes(tampered, found.1));
        }
    }
}

proof fn lemma_level_root_binds(a: Seq<MerkleHash>, b: Seq<MerkleHash>) -> (found: (
    Seq<u8>,
    Seq<u8>,
))
    requires
        a.len() == b.len(),
        a != b,
        level_root(a) == level_root(b),
    ensures
        level_hashes(a, found.0),
        level_hashes(b, found.1),
        hash_collision(found.0, found.1),
    decreases a.len(),
{
    if a.len() <= 1 {
        assert(a =~= b);
        (Seq::empty(), Seq::empty())
    } else {
        let pa = parent_level(a);
        let pb = parent_level(b);
        if pa != pb {
            lemma_level_root_binds(pa, pb)
        } else {
            if forall|k: int| 0 <= k < a.len() ==> a[k] == b[k] {
                assert(a =~= b);
            }
            let k = choose|k: int| 0 <= k < a.len() && a[k] != b[k];
            let p = k / 2;
            assert(pa[p] == node_hash(a[2 * p], right_child(a, p)));
            assert(pb[p] == node_hash(b[2 * p], right_child(b, p)));
            lemma_node_hash_binds(a[2 * p], right_child(a, p), b[2 * p], right_child(b, p));
            assert(0 <= p < pa.len());
            (
                node_preimage(a[2 * p], right_child(a, p)),
                node_preimage(b[2 * p], right_child(b, p)),
            )
        }
    }
}

/// Two different sequences of the same length have different roots, unless
/// building the two trees hashes two different byte strings to the same
/// digest.
pub proof fn lemma_root_binds_items(items: Seq<Seq<u8>>, other: Seq<Seq<u8>>)
    requires
        items.len() == other.len(),
        items != other,
    ensures
        merkle_root(items) == merkle_root(other) ==> trees_collide(items, other),
{
    if merkle_root(items) == merkle_root(other) {
        let la = leaf_level(items);
        let lb = leaf_level(other);
        if la != lb {
            let found = lemma_level_root_binds(la, lb);
            assert(tree_hashes(items, found.0));
            assert(tree_hashes(other, found.1));
        } else {
            if forall|k: int| 0 <= k < items.len() ==> items[k] == other[k] {
                assert(items =~= other);
            }
            let k = choose|k: int| 0 <= k < items.len() && items[k] != other[k];
            assert(la[k] == leaf_hash(items[k]));
            assert(lb[k] == leaf_hash(other[k]));
            lemma_leaf_hash_binds(items[k], other[k]);
            assert(tree_hashes(items, leaf_preimage(items[k])));
            assert(tree_hashes(other, leaf_preimage(other[k])));
        }
    }
}

/// Order sensitivity: a sequence and a rearrangement of it that differs
/// from it have different roots, unless building the two trees hashes two
/// different byte strings to the same digest. A sequence of fewer than two
/// items has no such rearrangement.
pub proof fn lemma_order_sensitive(items: Seq<Seq<u8>>, permuted: Seq<Seq<u8>>)
    requires
        items.to_multiset() == permuted.to_multiset(),
        items != permuted,
    ensures
        items.len() >= 2,
        merkle_root(items) == merkle_root(permuted) ==> trees_collide(items, permuted),
{
    to_multiset_len(items);
    to_multiset_len(permuted);
    lemma_root_binds_items(items, permuted);
    if items.len() == 0 {
        assert(items =~= permuted);
    } else if items.len() == 1 {
        assert(items.to_multiset().count(items[0]) > 0) by {
            to_multiset_contains(items, items[0]);
        }
        assert(permuted.contains(items[0])) by {
            to_multiset_contains(permuted, items[0]);
        }
        assert(permuted[0] == items[0]);
        assert(items =~= permuted);
    }
}

} // verus!
