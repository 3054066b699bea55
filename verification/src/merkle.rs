//! Merkle trees over encoded items: roots, inclusion proofs and their check.
//!
//! Leaves are the tagged digests of the items. Each level is built from the
//! one below by hashing neighbours pairwise; a level of odd length pairs its
//! last node with itself. A tree over `n >= 1` items therefore has depth
//! `ceil(log2(n))`, and every inclusion proof carries exactly that many
//! siblings, bottom-up.

use vstd::prelude::*;
use vstd::arithmetic::power2::pow2;
use vstd::arithmetic::power2::lemma_pow2_unfold;
use vstd::arithmetic::power2::lemma_pow2_pos;
use vstd::arithmetic::power2::lemma2_to64;
use vstd::arithmetic::div_mod::lemma_div_denominator;
use crate::hashing::MerkleHash;
use crate::hashing::empty_root;
use crate::hashing::leaf_hash;
use crate::hashing::node_hash;
use crate::hashing::hash_empty;
use crate::hashing::hash_leaf;
use crate::hashing::hash_node;
use crate::hashing::hash_eq;
use crate::hashing::bytes_eq;
use crate::hashing::copy_bytes;

verus! {

/// Proof that an item is included under a Merkle root.
#[derive(Debug, PartialEq, Eq)]
pub struct JamProof {
    /// Root the proof was generated against.
    pub merkle_root: MerkleHash,
    /// Sibling digests from the leaf level upwards.
    pub proof_path: Vec<MerkleHash>,
    /// Position of the item among the leaves.
    pub leaf_index: u64,
    /// The encoded item whose inclusion is justified.
    pub justified_data: Vec<u8>,
}

/// Mathematical content of a [`JamProof`].
pub ghost struct JamProofView {
    pub merkle_root: MerkleHash,
    pub proof_path: Seq<MerkleHash>,
    pub leaf_index: u64,
    pub justified_data: Seq<u8>,
}

impl View for JamProof {
    type V = JamProofView;

    open spec fn view(&self) -> JamProofView {
        JamProofView {
            merkle_root: self.merkle_root,
            proof_path: self.proof_path@,
            leaf_index: self.leaf_index,
            justified_data: self.justified_data@,
        }
    }
}

impl Clone for JamProof {
    fn clone(&self) -> (copy: Self)
        ensures
            copy@ == self@,
    {
        let mut path: Vec<MerkleHash> = Vec::new();
        let mut i: usize = 0;
        while i < self.proof_path.len()
            invariant
                i <= self.proof_path@.len(),
                path@ == self.proof_path@.subrange(0, i as int),
            decreases self.proof_path@.len() - i,
        {
            path.push(self.proof_path[i]);
            i += 1;
        }
        assert(self.proof_path@.subrange(0, i as int) == self.proof_path@);
        JamProof {
            merkle_root: self.merkle_root,
            proof_path: path,
            leaf_index: self.leaf_index,
            justified_data: copy_bytes(&self.justified_data),
        }
    }
}

/// The byte contents of a list of encoded items.
pub open spec fn item_views(items: Seq<Vec<u8>>) -> Seq<Seq<u8>> {
    Seq::new(items.len(), |i: int| items[i]@)
}

/// The leaf digests of `items`, in order.
pub open spec fn leaf_level(items: Seq<Seq<u8>>) -> Seq<MerkleHash> {
    Seq::new(items.len(), |i: int| leaf_hash(items[i]))
}

/// Right child of parent number `parent`: the node after the left child, or
/// the left child again where the level ends on it.
pub open spec fn right_child(level: Seq<MerkleHash>, parent: int) -> MerkleHash {
    if 2 * parent + 1 < level.len() {
        level[2 * parent + 1]
    } else {
        level[2 * parent]
    }
}

/// The level above `level`.
pub open spec fn parent_level(level: Seq<MerkleHash>) -> Seq<MerkleHash> {
    Seq::new(
        ((level.len() + 1) / 2) as nat,
        |p: int| node_hash(level[2 * p], right_child(level, p)),
    )
}

/// Root above `level`: the only node of a one-node level, otherwise the root
/// above the parent level.
pub open spec fn level_root(level: Seq<MerkleHash>) -> MerkleHash
    decreases level.len(),
{
    if level.len() == 0 {
        empty_root()
    } else if level.len() == 1 {
        level[0]
    } else {
        level_root(parent_level(level))
    }
}

/// Merkle root of `items`.
pub open spec fn merkle_root(items: Seq<Seq<u8>>) -> MerkleHash {
    level_root(leaf_level(items))
}

/// The node that is hashed together with node `index` of `level`.
pub open spec fn sibling(level: Seq<MerkleHash>, index: int) -> MerkleHash {
    if index % 2 == 1 {
        level[index - 1]
    } else if index + 1 < level.len() {
        level[index + 1]
    } else {
        level[index]
    }
}

/// Siblings met on the way from node `index` of `level` up to the root.
pub open spec fn level_path(level: Seq<MerkleHash>, index: int) -> Seq<MerkleHash>
    decreases level.len(),
{
    if level.len() <= 1 || index < 0 || index >= level.len() {
        Seq::empty()
    } else {
        seq![sibling(level, index)] + level_path(parent_level(level), index / 2)
    }
}

/// Sibling path of item `index` in the tree over `items`.
pub open spec fn merkle_path(items: Seq<Seq<u8>>, index: int) -> Seq<MerkleHash> {
    level_path(leaf_level(items), index)
}

/// Parent of `node`, which sits at `index` in its level beside `sib`.
pub open spec fn climb(node: MerkleHash, index: nat, sib: MerkleHash) -> MerkleHash {
    if index % 2 == 0 {
        node_hash(node, sib)
    } else {
        node_hash(sib, node)
    }
}

/// The digest reached from `node` at `index` by climbing along `path`.
pub open spec fn fold_path(node: MerkleHash, index: nat, path: Seq<MerkleHash>) -> MerkleHash
    decreases path.len(),
{
    if path.len() == 0 {
        node
    } else {
        fold_path(climb(node, index, path[0]), index / 2, path.drop_first())
    }
}

/// A proof verifies against `root` when its index fits a tree as deep as its
/// path is long and climbing from the leaf of its data arrives at `root`.
pub open spec fn proof_verifies(proof: JamProofView, root: MerkleHash) -> bool {
    &&& (proof.leaf_index as nat) < pow2(proof.proof_path.len())
    &&& fold_path(
        leaf_hash(proof.justified_data),
        proof.leaf_index as nat,
        proof.proof_path,
    ) == root
}

/// The inclusion proof of item `index` of `items`.
pub open spec fn inclusion_proof(items: Seq<Seq<u8>>, index: int) -> JamProofView {
    JamProofView {
        merkle_root: merkle_root(items),
        proof_path: merkle_path(items, index),
        leaf_index: index as u64,
        justified_data: items[index],
    }
}

fn leaf_hashes(items: &Vec<Vec<u8>>) -> (level: Vec<MerkleHash>)
    ensures
        level@ == leaf_level(item_views(items@)),
{
    let mut level: Vec<MerkleHash> = Vec::new();
    let mut i: usize = 0;
    while i < items.len()
        invariant
            i <= items.len(),
            level@.len() == i,
            forall|k: int| 0 <= k < i ==> level@[k] == leaf_hash(items@[k]@),
        decreases items.len() - i,
    {
        let digest = hash_leaf(&items[i]);
        level.push(digest);
        i += 1;
    }
    assert(level@ =~= leaf_level(item_views(items@)));
    level
}

fn pair_up(level: &Vec<MerkleHash>) -> (parents: Vec<MerkleHash>)
    ensures
        parents@ == parent_level(level@),
{
    let n: usize = level.len();
    let count: usize = n / 2 + n % 2;
    let mut parents: Vec<MerkleHash> = Vec::new();
    let mut p: usize = 0;
    while p < count
        invariant
            n == level.len(),
            count == (n + 1) / 2,
            p <= count,
            parents@.len() == p,
            forall|k: int|
                0 <= k < p ==> parents@[k] == node_hash(level@[2 * k], right_child(level@, k)),
        decreases count - p,
    {
        let left: usize = 2 * p;
        let right: usize = if left + 1 < n {
            left + 1
        } else {
            left
        };
        let digest = hash_node(&level[left], &level[right]);
        parents.push(digest);
        p += 1;
    }
    assert(parents@ =~= parent_level(level@));
    parents
}

fn root_from_level(level: Vec<MerkleHash>) -> (root: MerkleHash)
    ensures
        root == level_root(level@),
{
    if level.len() == 0 {
        return hash_empty();
    }
    let mut level = level;
    let ghost start = level@;
    while level.len() > 1
        invariant
            level@.len() >= 1,
            level_root(level@) == level_root(start),
        decreases level@.len(),
    {
        level = pair_up(&level);
    }
    level[0]
}

/// Builds the Merkle tree over `items` and returns its root.
pub fn build_merkle_tree(items: &Vec<Vec<u8>>) -> (root: MerkleHash)
    ensures
        root == merkle_root(item_views(items@)),
{
    let leaves = leaf_hashes(items);
    root_from_level(leaves)
}

/// Proves that `item` stands at `index` in `items`.
///
/// Returns `None` when `index` is out of range or another item stands there.
pub fn prove(item: &Vec<u8>, items: &Vec<Vec<u8>>, index: u64) -> (found: Option<JamProof>)
    ensures
        found is Some <==> index < items.len() && items@[index as int]@ == item@,
        found matches Some(proof) ==> proof@ == inclusion_proof(item_views(items@), index as int),
{
    if index >= items.len() as u64 {
        return None;
    }
    let at: usize = index as usize;
    if !bytes_eq(&items[at], item) {
        return None;
    }
    let mut level = leaf_hashes(items);
    let ghost leaves = level@;
    let mut path: Vec<MerkleHash> = Vec::new();
    let mut pos: usize = at;
    while level.len() > 1
        invariant
            0 <= pos < level@.len(),
            path@ + level_path(level@, pos as int) == level_path(leaves, at as int),
            level_root(level@) == level_root(leaves),
        decreases level@.len(),
    {
        let sib: usize = if pos % 2 == 1 {
            pos - 1
        } else if pos + 1 < level.len() {
            pos + 1
        } else {
            pos
        };
        let ghost before = path@;
        let ghost rest = level_path(parent_level(level@), (pos / 2) as int);
        path.push(level[sib]);
        proof {
            assert(level_path(level@, pos as int) == seq![sibling(level@, pos as int)] + rest);
            assert(path@ + rest =~= before + (seq![sibling(level@, pos as int)] + rest));
        }
        level = pair_up(&level);
        pos = pos / 2;
    }
    proof {
        assert(level_path(level@, pos as int) =~= Seq::<MerkleHash>::empty());
        assert(path@ + Seq::<MerkleHash>::empty() =~= path@);
    }
    Some(
        JamProof {
            merkle_root: level[0],
            proof_path: path,
            leaf_index: index,
            justified_data: copy_bytes(item),
        },
    )
}

/// Proves that `item` occurs in `items`, at its first position.
///
/// Returns `None` when `items` does not hold `item`.
pub fn generate_jam_proof(item: &Vec<u8>, items: &Vec<Vec<u8>>) -> (found: Option<JamProof>)
    ensures
        found is Some <==> item_views(items@).contains(item@),
        found matches Some(proof) ==> {
            &&& proof.leaf_index < items.len()
            &&& items@[proof.leaf_index as int]@ == item@
            &&& forall|j: int| 0 <= j < proof.leaf_index ==> items@[j]@ != item@
            &&& proof@ == inclusion_proof(item_views(items@), proof.leaf_index as int)
        },
{
    let mut i: usize = 0;
    while i < items.len()
        invariant
            i <= items.len(),
            forall|j: int| 0 <= j < i ==> items@[j]@ != item@,
        decreases items.len() - i,
    {
        if bytes_eq(&items[i], item) {
            assert(item_views(items@)[i as int] == item@);
            let found = prove(item, items, i as u64);
            return found;
        }
        i += 1;
    }
    assert(!item_views(items@).contains(item@)) by {
        if item_views(items@).contains(item@) {
            let j = choose|j: int| 0 <= j < items@.len() && item_views(items@)[j] == item@;
            assert(items@[j]@ != item@);
        }
    }
    None
}

/// Checks `proof` against `root`.
///
/// Hashes the justified data into a leaf, folds the path over it in order and
/// compares the result with `root`. A proof whose index has bits beyond the
/// length of its path is rejected: its path is too short for its position.
/// The root that the proof itself records plays no part.
pub fn verify_jam_proof(proof: &JamProof, root: MerkleHash) -> (ok: bool)
    ensures
        ok == proof_verifies(proof@, root),
{
    let mut node = hash_leaf(&proof.justified_data);
    let mut idx: u64 = proof.leaf_index;
    let mut k: usize = 0;
    let ghost leaf = node;
    proof {
        lemma2_to64();
        assert(proof.proof_path@.skip(0) =~= proof.proof_path@);
    }
    while k < proof.proof_path.len()
        invariant
            k <= proof.proof_path@.len(),
            idx as nat == (proof.leaf_index as nat) / pow2(k as nat),
            fold_path(node, idx as nat, proof.proof_path@.skip(k as int)) == fold_path(
                leaf,
                proof.leaf_index as nat,
                proof.proof_path@,
            ),
        decreases proof.proof_path@.len() - k,
    {
        let sib = &proof.proof_path[k];
        proof {
            let rest = proof.proof_path@.skip(k as int);
            assert(rest[0] == proof.proof_path@[k as int]);
            assert(rest.drop_first() =~= proof.proof_path@.skip(k + 1));
            lemma_pow2_pos(k as nat);
            lemma_pow2_unfold((k + 1) as nat);
            lemma_div_denominator(proof.leaf_index as int, pow2(k as nat) as int, 2);
        }
        node = if idx % 2 == 0 {
            hash_node(&node, sib)
        } else {
            hash_node(sib, &node)
        };
        idx = idx / 2;
        k += 1;
    }
    proof {
        let depth = proof.proof_path@.len();
        let bound = pow2(depth) as int;
        let index = proof.leaf_index as int;
        lemma_pow2_pos(depth);
        assert((index / bound == 0) <==> index < bound) by (nonlinear_arith)
            requires
                index >= 0,
                bound > 0,
        ;
        assert(proof.proof_path@.skip(depth as int) =~= Seq::<MerkleHash>::empty());
    }
    idx == 0 && hash_eq(&node, &root)
}

} // verus!
