//! The 32-byte digest used throughout the crate and the two domain-separated
//! ways of hashing: a leaf from its encoded item, a node from its children.

use vstd::prelude::*;

verus! {

/// A 32-byte Blake2 digest.
pub type MerkleHash = [u8; 32];

/// First byte of every leaf preimage.
pub const LEAF_TAG: u8 = 0;

/// First byte of every inner-node preimage.
pub const NODE_TAG: u8 = 1;

/// First byte of every operation preimage.
pub const OPERATION_TAG: u8 = 2;

/// The Blake2b digest of `data` with a 32-byte output, as computed by
/// `sp_runtime::traits::BlakeTwo256`.
pub uninterp spec fn blake2_256(data: Seq<u8>) -> MerkleHash;

/// Calls `<BlakeTwo256 as Hash>::hash`, which hands the bytes to
/// `sp_crypto_hashing::blake2_256` and wraps the 32-byte array in an `H256`.
/// The contract only names the digest: it is a function of the input bytes.
#[verifier::external_body]
pub(crate) fn blake2_256_digest(data: &Vec<u8>) -> (digest: MerkleHash)
    ensures
        digest == blake2_256(data@),
{
    <sp_runtime::traits::BlakeTwo256 as sp_runtime::traits::Hash>::hash(data.as_slice()).to_fixed_bytes()
}

/// Root of the tree over no items: the digest of the empty preimage, which
/// carries neither the leaf tag nor the node tag.
pub open spec fn empty_root() -> MerkleHash {
    blake2_256(Seq::empty())
}

/// Computes the root of the tree over no items.
pub fn hash_empty() -> (digest: MerkleHash)
    ensures
        digest == empty_root(),
{
    let buf: Vec<u8> = Vec::new();
    assert(buf@ == Seq::<u8>::empty());
    blake2_256_digest(&buf)
}

/// Preimage of a leaf: the leaf tag followed by the encoded item.
pub open spec fn leaf_preimage(data: Seq<u8>) -> Seq<u8> {
    seq![LEAF_TAG] + data
}

/// Preimage of an inner node: the node tag, the left child, the right child.
pub open spec fn node_preimage(left: MerkleHash, right: MerkleHash) -> Seq<u8> {
    seq![NODE_TAG] + left@ + right@
}

/// Digest of a leaf holding `data`.
pub open spec fn leaf_hash(data: Seq<u8>) -> MerkleHash {
    blake2_256(leaf_preimage(data))
}

/// Digest of the inner node above `left` and `right`.
pub open spec fn node_hash(left: MerkleHash, right: MerkleHash) -> MerkleHash {
    blake2_256(node_preimage(left, right))
}

/// Hashes an encoded item into its leaf digest.
pub fn hash_leaf(data: &Vec<u8>) -> (digest: MerkleHash)
    ensures
        digest == leaf_hash(data@),
{
    let mut buf: Vec<u8> = Vec::new();
    buf.push(LEAF_TAG);
    let mut i: usize = 0;
    while i < data.len()
        invariant
            i <= data.len(),
            buf@ == seq![LEAF_TAG] + data@.subrange(0, i as int),
        decreases data.len() - i,
    {
        buf.push(data[i]);
        i += 1;
    }
    assert(data@.subrange(0, data.len() as int) == data@);
    blake2_256_digest(&buf)
}

/// Combines two child digests into the digest of their parent.
pub fn hash_node(left: &MerkleHash, right: &MerkleHash) -> (digest: MerkleHash)
    ensures
        digest == node_hash(*left, *right),
{
    let mut buf: Vec<u8> = Vec::new();
    buf.push(NODE_TAG);
    let mut i: usize = 0;
    while i < 32
        invariant
            i <= 32,
            buf@ == seq![NODE_TAG] + left@.subrange(0, i as int),
        decreases 32 - i,
    {
        buf.push(left[i]);
        i += 1;
    }
    assert(left@.subrange(0, 32) == left@);
    let mut j: usize = 0;
    while j < 32
        invariant
            j <= 32,
            buf@ == seq![NODE_TAG] + left@ + right@.subrange(0, j as int),
        decreases 32 - j,
    {
        buf.push(right[j]);
        j += 1;
    }
    assert(right@.subrange(0, 32) == right@);
    blake2_256_digest(&buf)
}

/// Copies a byte vector.
pub fn copy_bytes(data: &Vec<u8>) -> (copy: Vec<u8>)
    ensures
        copy@ == data@,
{
    let mut copy: Vec<u8> = Vec::new();
    let mut i: usize = 0;
    while i < data.len()
        invariant
            i <= data.len(),
            copy@ == data@.subrange(0, i as int),
        decreases data.len() - i,
    {
        copy.push(data[i]);
        i += 1;
    }
    assert(data@.subrange(0, data.len() as int) == data@);
    copy
}

/// Byte-wise comparison of two byte vectors.
pub fn bytes_eq(a: &Vec<u8>, b: &Vec<u8>) -> (same: bool)
    ensures
        same == (a@ == b@),
{
    if a.len() != b.len() {
        return false;
    }
    let mut i: usize = 0;
    while i < a.len()
        invariant
            i <= a.len(),
            a.len() == b.len(),
            forall|k: int| 0 <= k < i ==> a@[k] == b@[k],
        decreases a.len() - i,
    {
        if a[i] != b[i] {
            return false;
        }
        i += 1;
    }
    assert(a@ =~= b@);
    true
}

/// The bytes of a digest.
pub fn digest_bytes(digest: &MerkleHash) -> (bytes: Vec<u8>)
    ensures
        bytes@ == digest@,
{
    let mut bytes: Vec<u8> = Vec::new();
    let mut i: usize = 0;
    while i < 32
        invariant
            i <= 32,
            bytes@ == digest@.subrange(0, i as int),
        decreases 32 - i,
    {
        bytes.push(digest[i]);
        i += 1;
    }
    assert(digest@.subrange(0, 32) == digest@);
    bytes
}

/// Byte-wise comparison of two digests.
pub fn hash_eq(a: &MerkleHash, b: &MerkleHash) -> (same: bool)
    ensures
        same == (*a == *b),
{
    let mut i: usize = 0;
    while i < 32
        invariant
            i <= 32,
            forall|k: int| 0 <= k < i ==> a[k] == b[k],
        decreases 32 - i,
    {
        if a[i] != b[i] {
            return false;
        }
        i += 1;
    }
    assert(*a =~= *b);
    true
}

} // verus!
