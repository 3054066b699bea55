use qvalidator::hashing::{hash_empty, hash_eq, hash_leaf, hash_node, MerkleHash};
use qvalidator::merkle::{
    build_merkle_tree, generate_jam_proof, prove, verify_jam_proof, JamProof,
};

fn blake2(data: &[u8]) -> MerkleHash {
    <sp_runtime::traits::BlakeTwo256 as sp_runtime::traits::Hash>::hash(data).to_fixed_bytes()
}

fn items(n: usize) -> Vec<Vec<u8>> {
    (0..n).map(|i| vec![i as u8, (i * 7) as u8, 0xaa]).collect()
}

fn hex(digest: &MerkleHash) -> String {
    digest.iter().map(|b| format!("{:02x}", b)).collect()
}

#[test]
fn empty_preimage_has_the_known_blake2b_256_digest() {
    assert_eq!(
        hex(&hash_empty()),
        "0e5751c026e543b2e8ab2eb06099daa1d1e5df47778f7787faab45cdf12fe3a8"
    );
}

#[test]
fn leaf_digest_is_blake2_of_tagged_item() {
    let item = vec![1u8, 2, 3];
    assert_eq!(hash_leaf(&item), blake2(&[0, 1, 2, 3]));
    assert_ne!(hash_leaf(&item), blake2(&[1, 2, 3]));
    assert_eq!(hash_leaf(&Vec::new()), blake2(&[0]));
}

#[test]
fn node_digest_is_blake2_of_tagged_children() {
    let left = hash_leaf(&vec![1u8]);
    let right = hash_leaf(&vec![2u8]);
    let mut preimage = vec![1u8];
    preimage.extend_from_slice(&left);
    preimage.extend_from_slice(&right);
    assert_eq!(preimage.len(), 65);
    assert_eq!(hash_node(&left, &right), blake2(&preimage));
    assert_ne!(hash_node(&left, &right), hash_node(&right, &left));
}

#[test]
fn digests_compare_bytewise() {
    let a = hash_leaf(&vec![1u8]);
    let mut b = a;
    assert!(hash_eq(&a, &b));
    b[31] ^= 1;
    assert!(!hash_eq(&a, &b));
}

#[test]
fn root_of_no_items_is_the_empty_root() {
    assert_eq!(build_merkle_tree(&Vec::new()), hash_empty());
}

#[test]
fn root_of_one_item_is_its_leaf() {
    let list = vec![vec![9u8, 9, 9]];
    assert_eq!(build_merkle_tree(&list), hash_leaf(&list[0]));
}

#[test]
fn root_of_two_items_combines_their_leaves() {
    let list = items(2);
    let expected = hash_node(&hash_leaf(&list[0]), &hash_leaf(&list[1]));
    assert_eq!(build_merkle_tree(&list), expected);
}

#[test]
fn odd_level_pairs_its_last_node_with_itself() {
    let list = items(3);
    let l0 = hash_leaf(&list[0]);
    let l1 = hash_leaf(&list[1]);
    let l2 = hash_leaf(&list[2]);
    let expected = hash_node(&hash_node(&l0, &l1), &hash_node(&l2, &l2));
    assert_eq!(build_merkle_tree(&list), expected);
}

#[test]
fn five_items_build_three_levels() {
    let list = items(5);
    let l: Vec<MerkleHash> = list.iter().map(hash_leaf).collect();
    let p0 = hash_node(&l[0], &l[1]);
    let p1 = hash_node(&l[2], &l[3]);
    let p2 = hash_node(&l[4], &l[4]);
    let q0 = hash_node(&p0, &p1);
    let q1 = hash_node(&p2, &p2);
    assert_eq!(build_merkle_tree(&list), hash_node(&q0, &q1));
}

#[test]
fn build_is_deterministic() {
    assert_eq!(build_merkle_tree(&items(6)), build_merkle_tree(&items(6)));
}

#[test]
fn every_proof_verifies_against_its_root() {
    for n in 1..=17usize {
        let list = items(n);
        let root = build_merkle_tree(&list);
        for i in 0..n {
            let proof = prove(&list[i], &list, i as u64).expect("item is present");
            assert_eq!(proof.merkle_root, root);
            assert_eq!(proof.leaf_index, i as u64);
            assert_eq!(proof.justified_data, list[i]);
            assert!(verify_jam_proof(&proof, root), "n = {}, i = {}", n, i);
        }
    }
}

#[test]
fn path_length_is_the_depth_of_the_tree() {
    let depths = [(1usize, 0usize), (2, 1), (3, 2), (4, 2), (5, 3), (8, 3), (9, 4), (16, 4)];
    for (n, depth) in depths {
        let list = items(n);
        for i in 0..n {
            let proof = prove(&list[i], &list, i as u64).unwrap();
            assert_eq!(proof.proof_path.len(), depth, "n = {}, i = {}", n, i);
        }
    }
}

#[test]
fn proof_path_lists_siblings_bottom_up() {
    let list = items(3);
    let l0 = hash_leaf(&list[0]);
    let l1 = hash_leaf(&list[1]);
    let l2 = hash_leaf(&list[2]);
    let proof = prove(&list[2], &list, 2).unwrap();
    assert_eq!(proof.proof_path, vec![l2, hash_node(&l0, &l1)]);
    let proof = prove(&list[1], &list, 1).unwrap();
    assert_eq!(proof.proof_path, vec![l0, hash_node(&l2, &l2)]);
}

#[test]
fn prove_fails_when_index_is_out_of_range() {
    let list = items(4);
    assert_eq!(prove(&list[0], &list, 4), None);
    assert_eq!(prove(&list[0], &list, u64::MAX), None);
    assert_eq!(prove(&vec![1u8], &Vec::new(), 0), None);
}

#[test]
fn prove_fails_when_another_item_stands_at_index() {
    let list = items(4);
    assert_eq!(prove(&list[0], &list, 1), None);
    assert_eq!(prove(&vec![0xffu8], &list, 0), None);
}

#[test]
fn generate_finds_the_first_occurrence() {
    let mut list = items(4);
    list.push(list[1].clone());
    let proof = generate_jam_proof(&list[1], &list).unwrap();
    assert_eq!(proof.leaf_index, 1);
    assert_eq!(proof, prove(&list[1], &list, 1).unwrap());
    assert!(verify_jam_proof(&proof, build_merkle_tree(&list)));
}

#[test]
fn generate_fails_when_item_is_absent() {
    assert_eq!(generate_jam_proof(&vec![0xffu8], &items(4)), None);
    assert_eq!(generate_jam_proof(&vec![0xffu8], &Vec::new()), None);
}

#[test]
fn changed_data_is_rejected() {
    let list = items(7);
    let root = build_merkle_tree(&list);
    for i in 0..7usize {
        let proof = prove(&list[i], &list, i as u64).unwrap();
        for byte in 0..proof.justified_data.len() {
            for bit in 0..8 {
                let mut tampered = proof.clone();
                tampered.justified_data[byte] ^= 1 << bit;
                assert!(!verify_jam_proof(&tampered, root));
            }
        }
        let mut longer = proof.clone();
        longer.justified_data.push(0);
        assert!(!verify_jam_proof(&longer, root));
    }
}

#[test]
fn changed_sibling_is_rejected() {
    let list = items(7);
    let root = build_merkle_tree(&list);
    for i in 0..7usize {
        let proof = prove(&list[i], &list, i as u64).unwrap();
        for level in 0..proof.proof_path.len() {
            for byte in 0..32 {
                let mut tampered = proof.clone();
                tampered.proof_path[level][byte] ^= 0x10;
                assert!(!verify_jam_proof(&tampered, root));
            }
        }
    }
}

#[test]
fn wrong_root_is_rejected() {
    let list = items(4);
    let proof = prove(&list[2], &list, 2).unwrap();
    let mut root = build_merkle_tree(&list);
    root[0] ^= 1;
    assert!(!verify_jam_proof(&proof, root));
    assert!(!verify_jam_proof(&proof, build_merkle_tree(&items(5))));
}

#[test]
fn wrong_position_is_rejected() {
    let list = items(4);
    let root = build_merkle_tree(&list);
    let proof = prove(&list[2], &list, 2).unwrap();
    let moved = JamProof { leaf_index: 3, ..proof.clone() };
    assert!(!verify_jam_proof(&moved, root));
}

#[test]
fn index_beyond_the_depth_of_the_path_is_rejected() {
    let list = items(4);
    let root = build_merkle_tree(&list);
    let proof = prove(&list[2], &list, 2).unwrap();
    assert_eq!(proof.proof_path.len(), 2);
    let high = JamProof { leaf_index: 2 + 4, ..proof.clone() };
    assert!(!verify_jam_proof(&high, root));
    let higher = JamProof { leaf_index: 2 + (1 << 40), ..proof };
    assert!(!verify_jam_proof(&higher, root));
}

#[test]
fn path_of_wrong_length_is_rejected() {
    let list = items(8);
    let root = build_merkle_tree(&list);
    let proof = prove(&list[5], &list, 5).unwrap();
    let mut shorter = proof.clone();
    shorter.proof_path.pop();
    assert!(!verify_jam_proof(&shorter, root));
    let mut longer = proof.clone();
    longer.proof_path.push(root);
    assert!(!verify_jam_proof(&longer, root));
    let empty = JamProof { proof_path: Vec::new(), leaf_index: 0, ..proof };
    assert!(!verify_jam_proof(&empty, root));
}

#[test]
fn proof_for_a_single_item_has_an_empty_path() {
    let list = vec![vec![5u8]];
    let proof = prove(&list[0], &list, 0).unwrap();
    assert!(proof.proof_path.is_empty());
    assert!(verify_jam_proof(&proof, hash_leaf(&list[0])));
    let off = JamProof { leaf_index: 1, ..proof };
    assert!(!verify_jam_proof(&off, hash_leaf(&list[0])));
}

#[test]
fn reordering_changes_the_root() {
    let list = items(5);
    let root = build_merkle_tree(&list);
    for i in 0..5 {
        for j in (i + 1)..5 {
            let mut swapped = list.clone();
            swapped.swap(i, j);
            assert_ne!(build_merkle_tree(&swapped), root, "swap {} {}", i, j);
        }
    }
    let mut rotated = list.clone();
    rotated.rotate_left(1);
    assert_ne!(build_merkle_tree(&rotated), root);
}

#[test]
fn a_leaf_is_not_mistaken_for_a_node() {
    let list = items(2);
    let l0 = hash_leaf(&list[0]);
    let l1 = hash_leaf(&list[1]);
    let mut joined = Vec::new();
    joined.extend_from_slice(&l0);
    joined.extend_from_slice(&l1);
    assert_ne!(build_merkle_tree(&vec![joined]), build_merkle_tree(&list));
}
