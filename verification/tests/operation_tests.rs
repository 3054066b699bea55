use qvalidator::hashing::MerkleHash;
use qvalidator::merkle::{build_merkle_tree, prove, JamProof};
use qvalidator::operations::{operation_id, JamOperation, OperationRegistry};
use qvalidator::types::{
    Error, JamOperationStatus, JamOperationType, ValidationStatus, Vote,
};

fn blake2(data: &[u8]) -> MerkleHash {
    <sp_runtime::traits::BlakeTwo256 as sp_runtime::traits::Hash>::hash(data).to_fixed_bytes()
}

fn operation(tag: u8, created_at: u64, expires_at: u64) -> JamOperation {
    JamOperation {
        id: [tag; 32],
        initiator: 1,
        target_parachain_id: 2,
        operation_type: JamOperationType::MessagePassing,
        data: vec![tag],
        created_at,
        expires_at,
        proofs: Vec::new(),
        status: JamOperationStatus::Pending,
    }
}

fn fixture() -> (OperationRegistry, MerkleHash, JamProof) {
    let items = vec![vec![1u8; 32], vec![2u8; 32]];
    let root = build_merkle_tree(&items);
    let proof = prove(&items[0], &items, 0).unwrap();
    let mut registry = OperationRegistry::new();
    assert_eq!(registry.submit(operation(1, 100, 110), root), Ok(()));
    (registry, [1u8; 32], proof)
}

#[test]
fn operation_id_hashes_the_tagged_content() {
    let id = operation_id(0x0102030405060708, 0x0a0b0c0d, JamOperationType::Custom(9), &vec![0xee, 0xff], 3, 4);
    let mut preimage = vec![2u8];
    preimage.extend_from_slice(&[8, 7, 6, 5, 4, 3, 2, 1]);
    preimage.extend_from_slice(&[0x0d, 0x0c, 0x0b, 0x0a]);
    preimage.extend_from_slice(&[5, 9]);
    preimage.extend_from_slice(&[3, 0, 0, 0, 0, 0, 0, 0]);
    preimage.extend_from_slice(&[4, 0, 0, 0, 0, 0, 0, 0]);
    preimage.extend_from_slice(&[0xee, 0xff]);
    assert_eq!(id, blake2(&preimage));
}

#[test]
fn operation_id_tells_the_kinds_apart() {
    let kinds = [
        JamOperationType::AssetTransfer,
        JamOperationType::MessagePassing,
        JamOperationType::QuantumTeleportation,
        JamOperationType::SmartContractCall,
        JamOperationType::ValidatorSetUpdate,
        JamOperationType::Custom(0),
        JamOperationType::Custom(1),
    ];
    let ids: Vec<MerkleHash> =
        kinds.iter().map(|k| operation_id(1, 2, *k, &vec![3], 4, 5)).collect();
    for i in 0..ids.len() {
        for j in (i + 1)..ids.len() {
            assert_ne!(ids[i], ids[j]);
        }
    }
    let mut preimage = vec![2u8, 1, 0, 0, 0, 0, 0, 0, 0, 2, 0, 0, 0, 0, 0];
    preimage.extend_from_slice(&[4, 0, 0, 0, 0, 0, 0, 0, 5, 0, 0, 0, 0, 0, 0, 0, 3]);
    assert_eq!(ids[0], blake2(&preimage));
}

#[test]
fn operation_id_depends_on_every_field() {
    let base = operation_id(1, 2, JamOperationType::AssetTransfer, &vec![3], 4, 5);
    assert_eq!(base, operation_id(1, 2, JamOperationType::AssetTransfer, &vec![3], 4, 5));
    assert_ne!(base, operation_id(9, 2, JamOperationType::AssetTransfer, &vec![3], 4, 5));
    assert_ne!(base, operation_id(1, 9, JamOperationType::AssetTransfer, &vec![3], 4, 5));
    assert_ne!(base, operation_id(1, 2, JamOperationType::AssetTransfer, &vec![9], 4, 5));
    assert_ne!(base, operation_id(1, 2, JamOperationType::AssetTransfer, &vec![3], 9, 5));
    assert_ne!(base, operation_id(1, 2, JamOperationType::AssetTransfer, &vec![3], 4, 9));
}

#[test]
fn submitted_operation_is_pending() {
    let (mut registry, id, _) = fixture();
    assert_eq!(registry.len(), 1);
    assert!(registry.contains(&id));
    assert_eq!(registry.status(&id, 100), Ok(JamOperationStatus::Pending));
    let entry = registry.entry(&id).unwrap();
    assert_eq!(entry.operation.data, vec![1u8]);
    assert!(entry.session.attestations().is_empty());
    assert_eq!(entry.result, None);
}

#[test]
fn submit_records_the_operation_as_pending_whatever_status_it_came_with() {
    let mut registry = OperationRegistry::new();
    let mut op = operation(3, 1, 2);
    op.status = JamOperationStatus::Completed;
    assert_eq!(registry.submit(op, [0u8; 32]), Ok(()));
    assert_eq!(registry.status(&[3u8; 32], 1), Ok(JamOperationStatus::Pending));
}

#[test]
fn duplicate_identifier_is_refused_and_the_record_is_kept() {
    let (mut registry, id, _) = fixture();
    let mut again = operation(1, 105, 120);
    again.data = vec![0xff];
    assert_eq!(registry.submit(again, [0u8; 32]), Err(Error::DuplicateOperation));
    assert_eq!(registry.len(), 1);
    let entry = registry.entry(&id).unwrap();
    assert_eq!(entry.operation, operation(1, 100, 110));
}

#[test]
fn operation_must_expire_after_its_creation() {
    let mut registry = OperationRegistry::new();
    assert_eq!(registry.submit(operation(1, 100, 100), [0u8; 32]), Err(Error::OperationExpired));
    assert_eq!(registry.submit(operation(1, 100, 99), [0u8; 32]), Err(Error::OperationExpired));
    assert_eq!(registry.len(), 0);
    assert_eq!(registry.submit(operation(1, 100, 101), [0u8; 32]), Ok(()));
}

#[test]
fn unknown_operation_is_not_found() {
    let (mut registry, _, proof) = fixture();
    let other = [9u8; 32];
    assert!(!registry.contains(&other));
    assert!(registry.entry(&other).is_none());
    assert_eq!(registry.status(&other, 100), Err(Error::OperationNotFound));
    assert_eq!(registry.begin_validation(&other, 100), Err(Error::OperationNotFound));
    assert_eq!(
        registry.attest(&other, 1, true, Vote::Approve, proof, 100, 10),
        Err(Error::OperationNotFound)
    );
    assert_eq!(registry.finalize(&other, 1, 100), Err(Error::OperationNotFound));
}

#[test]
fn begin_validation_moves_pending_to_in_progress() {
    let (mut registry, id, _) = fixture();
    assert_eq!(registry.begin_validation(&id, 105), Ok(()));
    assert_eq!(registry.status(&id, 105), Ok(JamOperationStatus::InProgress));
    assert_eq!(registry.begin_validation(&id, 105), Err(Error::InvalidTransition));
    assert_eq!(registry.status(&id, 105), Ok(JamOperationStatus::InProgress));
}

#[test]
fn finalize_on_pending_is_an_invalid_transition() {
    let (mut registry, id, _) = fixture();
    assert_eq!(registry.finalize(&id, 0, 105), Err(Error::InvalidTransition));
    assert_eq!(registry.begin_validation(&id, 105), Ok(()));
    assert_eq!(registry.finalize(&id, 0, 105), Err(Error::InvalidTransition));
    assert_eq!(registry.status(&id, 105), Ok(JamOperationStatus::InProgress));
    let (mut registry, id, _) = fixture();
    assert_eq!(registry.finalize(&id, 1, 105), Err(Error::InvalidTransition));
    assert_eq!(registry.status(&id, 105), Ok(JamOperationStatus::Pending));
    assert_eq!(registry.entry(&id).unwrap().result, None);
}

#[test]
fn finalize_without_quorum_is_an_invalid_transition() {
    let (mut registry, id, proof) = fixture();
    assert_eq!(registry.attest(&id, 1, true, Vote::Approve, proof, 101, 10), Ok(true));
    assert_eq!(registry.finalize(&id, 2, 102), Err(Error::InvalidTransition));
    assert_eq!(registry.status(&id, 102), Ok(JamOperationStatus::InProgress));
    assert_eq!(registry.entry(&id).unwrap().result, None);
}

#[test]
fn first_attestation_begins_validation() {
    let (mut registry, id, proof) = fixture();
    assert_eq!(registry.attest(&id, 1, true, Vote::Approve, proof, 101, 10), Ok(true));
    assert_eq!(registry.status(&id, 101), Ok(JamOperationStatus::InProgress));
    assert_eq!(registry.entry(&id).unwrap().session.attestations().len(), 1);
}

#[test]
fn refused_attestation_leaves_a_pending_operation_pending() {
    let (mut registry, id, proof) = fixture();
    assert_eq!(
        registry.attest(&id, 1, true, Vote::Approve, proof, 101, 0),
        Err(Error::TooManyValidators)
    );
    assert_eq!(registry.status(&id, 101), Ok(JamOperationStatus::Pending));
}

#[test]
fn finalize_with_quorum_completes_and_writes_the_result() {
    let (mut registry, id, proof) = fixture();
    assert_eq!(registry.attest(&id, 1, true, Vote::Approve, proof.clone(), 101, 10), Ok(true));
    assert_eq!(registry.attest(&id, 2, true, Vote::Approve, proof, 102, 10), Ok(true));
    assert_eq!(registry.finalize(&id, 2, 103), Ok(ValidationStatus::Success));
    assert_eq!(registry.status(&id, 103), Ok(JamOperationStatus::Completed));
    let result = registry.entry(&id).unwrap().result.clone().unwrap();
    assert_eq!(result.operation_hash, id);
    assert_eq!(result.validators, vec![1, 2]);
    assert_eq!(result.status, ValidationStatus::Success);
    assert_eq!(result.completed_at, 103);
}

#[test]
fn finalize_with_rejections_fails_the_operation() {
    let (mut registry, id, proof) = fixture();
    assert_eq!(registry.attest(&id, 1, true, Vote::Reject, proof, 101, 10), Ok(true));
    assert_eq!(registry.finalize(&id, 1, 103), Ok(ValidationStatus::Failed));
    assert_eq!(registry.status(&id, 103), Ok(JamOperationStatus::Failed));
    assert_eq!(registry.entry(&id).unwrap().result.as_ref().unwrap().result_data, None);
}

#[test]
fn finalized_operation_takes_no_further_transition() {
    let (mut registry, id, proof) = fixture();
    assert_eq!(registry.attest(&id, 1, true, Vote::Approve, proof.clone(), 101, 10), Ok(true));
    assert_eq!(registry.finalize(&id, 1, 103), Ok(ValidationStatus::Success));
    let result = registry.entry(&id).unwrap().result.clone();
    assert_eq!(registry.finalize(&id, 1, 104), Err(Error::InvalidTransition));
    assert_eq!(registry.begin_validation(&id, 104), Err(Error::InvalidTransition));
    assert_eq!(
        registry.attest(&id, 2, true, Vote::Reject, proof, 104, 10),
        Err(Error::InvalidTransition)
    );
    assert_eq!(registry.status(&id, 500), Ok(JamOperationStatus::Completed));
    assert_eq!(registry.entry(&id).unwrap().result, result);
    assert_eq!(registry.entry(&id).unwrap().session.attestations().len(), 1);
}

#[test]
fn operation_is_live_at_its_expiry_height() {
    let (mut registry, id, _) = fixture();
    assert_eq!(registry.status(&id, 110), Ok(JamOperationStatus::Pending));
    assert_eq!(registry.begin_validation(&id, 110), Ok(()));
}

#[test]
fn operation_expires_after_its_expiry_height() {
    let (mut registry, id, _) = fixture();
    assert_eq!(registry.status(&id, 111), Ok(JamOperationStatus::Expired));
    assert_eq!(registry.entry(&id).unwrap().operation.status, JamOperationStatus::Expired);
}

#[test]
fn expired_operation_refuses_every_transition_from_then_on() {
    let (mut registry, id, proof) = fixture();
    assert_eq!(registry.begin_validation(&id, 111), Err(Error::OperationExpired));
    assert_eq!(registry.entry(&id).unwrap().operation.status, JamOperationStatus::Expired);
    assert_eq!(registry.begin_validation(&id, 105), Err(Error::OperationExpired));
    assert_eq!(
        registry.attest(&id, 1, true, Vote::Approve, proof, 105, 10),
        Err(Error::OperationExpired)
    );
    assert_eq!(registry.finalize(&id, 0, 105), Err(Error::OperationExpired));
    assert_eq!(registry.status(&id, 105), Ok(JamOperationStatus::Expired));
    assert_eq!(registry.entry(&id).unwrap().result, None);
    assert!(registry.entry(&id).unwrap().session.attestations().is_empty());
}

#[test]
fn in_progress_operation_expires_on_attest_and_on_finalize() {
    let (mut registry, id, proof) = fixture();
    assert_eq!(registry.attest(&id, 1, true, Vote::Approve, proof.clone(), 101, 10), Ok(true));
    assert_eq!(
        registry.attest(&id, 2, true, Vote::Approve, proof.clone(), 111, 10),
        Err(Error::OperationExpired)
    );
    assert_eq!(registry.status(&id, 111), Ok(JamOperationStatus::Expired));

    let (mut registry, id, _) = fixture();
    assert_eq!(registry.attest(&id, 1, true, Vote::Approve, proof, 101, 10), Ok(true));
    assert_eq!(registry.finalize(&id, 1, 111), Err(Error::OperationExpired));
    assert_eq!(registry.status(&id, 111), Ok(JamOperationStatus::Expired));
    assert_eq!(registry.entry(&id).unwrap().result, None);
}

#[test]
fn touch_all_expires_what_is_due_and_nothing_else() {
    let mut registry = OperationRegistry::new();
    assert_eq!(registry.submit(operation(1, 100, 110), [0u8; 32]), Ok(()));
    assert_eq!(registry.submit(operation(2, 100, 120), [0u8; 32]), Ok(()));
    assert_eq!(registry.submit(operation(3, 100, 105), [0u8; 32]), Ok(()));
    assert_eq!(registry.begin_validation(&[3u8; 32], 101), Ok(()));
    registry.touch_all(111);
    let status = |r: &OperationRegistry, tag: u8| r.entry(&[tag; 32]).unwrap().operation.status;
    assert_eq!(status(&registry, 1), JamOperationStatus::Expired);
    assert_eq!(status(&registry, 2), JamOperationStatus::Pending);
    assert_eq!(status(&registry, 3), JamOperationStatus::Expired);
    assert_eq!(registry.len(), 3);
}
