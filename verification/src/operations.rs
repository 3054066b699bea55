//! The operation registry: every submitted operation with its validation
//! session and, once finalized, its result.
//!
//! An operation moves `Pending -> InProgress -> Completed | Failed`. Any call
//! that touches an operation which is not yet finalized, at a height beyond
//! its expiry, marks it `Expired` and is refused. Records are never deleted.

use vstd::prelude::*;
use crate::types::AccountId;
use crate::types::BlockNumber;
use crate::types::Error;
use crate::types::JamOperationStatus;
use crate::types::JamOperationType;
use crate::types::ValidationStatus;
use crate::types::Vote;
use crate::types::is_terminal;
use crate::hashing::MerkleHash;
use crate::hashing::hash_eq;
use crate::hashing::copy_bytes;
use crate::hashing::blake2_256;
use crate::hashing::blake2_256_digest;
use crate::hashing::OPERATION_TAG;
use vstd::bytes::spec_u32_to_le_bytes;
use vstd::bytes::spec_u64_to_le_bytes;
use vstd::bytes::u32_to_le_bytes;
use vstd::bytes::u64_to_le_bytes;
use crate::merkle::JamProof;
use crate::merkle::JamProofView;
use crate::session::AttestationView;
use crate::session::SessionView;
use crate::session::ValidationResult;
use crate::session::ValidationResultView;
use crate::session::ValidationSession;
use crate::session::attest_refusal;
use crate::session::counts;
use crate::session::participants;
use crate::session::session_result;
use crate::session::session_wf;
use crate::session::with_attestation;

verus! {

/// A cross-chain operation.
#[derive(Debug, PartialEq, Eq)]
pub struct JamOperation {
    /// Identifier, unique among all operations.
    pub id: MerkleHash,
    /// Initiator of the operation.
    pub initiator: AccountId,
    /// Target parachain.
    pub target_parachain_id: u32,
    /// Kind of operation.
    pub operation_type: JamOperationType,
    /// Payload.
    pub data: Vec<u8>,
    /// Height at which the operation was submitted.
    pub created_at: BlockNumber,
    /// Last height at which the operation may still be touched.
    pub expires_at: BlockNumber,
    /// Proofs that justify the operation.
    pub proofs: Vec<JamProof>,
    /// Where the operation stands.
    pub status: JamOperationStatus,
}

/// Mathematical content of a [`JamOperation`].
pub ghost struct JamOperationView {
    pub id: MerkleHash,
    pub initiator: AccountId,
    pub target_parachain_id: u32,
    pub operation_type: JamOperationType,
    pub data: Seq<u8>,
    pub created_at: BlockNumber,
    pub expires_at: BlockNumber,
    pub proofs: Seq<JamProofView>,
    pub status: JamOperationStatus,
}

/// The views of a list of proofs.
pub open spec fn proof_views(proofs: Seq<JamProof>) -> Seq<JamProofView> {
    Seq::new(proofs.len(), |i: int| proofs[i]@)
}

impl View for JamOperation {
    type V = JamOperationView;

    open spec fn view(&self) -> JamOperationView {
        JamOperationView {
            id: self.id,
            initiator: self.initiator,
            target_parachain_id: self.target_parachain_id,
            operation_type: self.operation_type,
            data: self.data@,
            created_at: self.created_at,
            expires_at: self.expires_at,
            proofs: proof_views(self.proofs@),
            status: self.status,
        }
    }
}

impl Clone for JamOperation {
    fn clone(&self) -> (copy: Self)
        ensures
            copy@ == self@,
    {
        let mut proofs: Vec<JamProof> = Vec::new();
        let mut i: usize = 0;
        while i < self.proofs.len()
            invariant
                i <= self.proofs@.len(),
                proofs@.len() == i,
                forall|k: int| 0 <= k < i ==> proofs@[k]@ == self.proofs@[k]@,
            decreases self.proofs@.len() - i,
        {
            proofs.push(self.proofs[i].clone());
            i += 1;
        }
        assert(proof_views(proofs@) =~= proof_views(self.proofs@));
        JamOperation {
            id: self.id,
            initiator: self.initiator,
            target_parachain_id: self.target_parachain_id,
            operation_type: self.operation_type,
            data: copy_bytes(&self.data),
            created_at: self.created_at,
            expires_at: self.expires_at,
            proofs,
            status: self.status,
        }
    }
}

/// The two bytes that stand for a kind of operation: its number, then the
/// byte of a custom kind or zero.
pub open spec fn kind_code(kind: JamOperationType) -> Seq<u8> {
    match kind {
        JamOperationType::AssetTransfer => seq![0u8, 0u8],
        JamOperationType::MessagePassing => seq![1u8, 0u8],
        JamOperationType::QuantumTeleportation => seq![2u8, 0u8],
        JamOperationType::SmartContractCall => seq![3u8, 0u8],
        JamOperationType::ValidatorSetUpdate => seq![4u8, 0u8],
        JamOperationType::Custom(byte) => seq![5u8, byte],
    }
}

/// The bytes that identify an operation: the operation tag, then the
/// initiator, the target chain, the kind, the two heights (integers in
/// little-endian order) and the payload.
pub open spec fn operation_preimage(
    initiator: AccountId,
    target_parachain_id: u32,
    kind: JamOperationType,
    payload: Seq<u8>,
    created_at: BlockNumber,
    expires_at: BlockNumber,
) -> Seq<u8> {
    seq![OPERATION_TAG] + spec_u64_to_le_bytes(initiator) + spec_u32_to_le_bytes(
        target_parachain_id,
    ) + kind_code(kind) + spec_u64_to_le_bytes(created_at) + spec_u64_to_le_bytes(expires_at)
        + payload
}

/// Identifier of the operation with the given content.
pub open spec fn operation_digest(
    initiator: AccountId,
    target_parachain_id: u32,
    kind: JamOperationType,
    payload: Seq<u8>,
    created_at: BlockNumber,
    expires_at: BlockNumber,
) -> MerkleHash {
    blake2_256(
        operation_preimage(
            initiator,
            target_parachain_id,
            kind,
            payload,
            created_at,
            expires_at,
        ),
    )
}

fn append_bytes(buf: &mut Vec<u8>, bytes: &Vec<u8>)
    ensures
        final(buf)@ == old(buf)@ + bytes@,
{
    let mut i: usize = 0;
    while i < bytes.len()
        invariant
            i <= bytes.len(),
            buf@ == old(buf)@ + bytes@.subrange(0, i as int),
        decreases bytes.len() - i,
    {
        buf.push(bytes[i]);
        i += 1;
    }
    assert(bytes@.subrange(0, bytes.len() as int) == bytes@);
}

/// Computes the identifier of the operation with the given content.
pub fn operation_id(
    initiator: AccountId,
    target_parachain_id: u32,
    kind: JamOperationType,
    payload: &Vec<u8>,
    created_at: BlockNumber,
    expires_at: BlockNumber,
) -> (id: MerkleHash)
    ensures
        id == operation_digest(
            initiator,
            target_parachain_id,
            kind,
            payload@,
            created_at,
            expires_at,
        ),
{
    let mut buf: Vec<u8> = Vec::new();
    buf.push(OPERATION_TAG);
    append_bytes(&mut buf, &u64_to_le_bytes(initiator));
    append_bytes(&mut buf, &u32_to_le_bytes(target_parachain_id));
    let (number, byte): (u8, u8) = match kind {
        JamOperationType::AssetTransfer => (0, 0),
        JamOperationType::MessagePassing => (1, 0),
        JamOperationType::QuantumTeleportation => (2, 0),
        JamOperationType::SmartContractCall => (3, 0),
        JamOperationType::ValidatorSetUpdate => (4, 0),
        JamOperationType::Custom(byte) => (5, byte),
    };
    buf.push(number);
    buf.push(byte);
    assert(buf@ =~= seq![OPERATION_TAG] + spec_u64_to_le_bytes(initiator)
        + spec_u32_to_le_bytes(target_parachain_id) + kind_code(kind));
    append_bytes(&mut buf, &u64_to_le_bytes(created_at));
    append_bytes(&mut buf, &u64_to_le_bytes(expires_at));
    append_bytes(&mut buf, payload);
    blake2_256_digest(&buf)
}

/// What the registry holds of one operation.
pub struct OperationEntry {
    /// The operation.
    pub operation: JamOperation,
    /// The attestations made to it.
    pub session: ValidationSession,
    /// The result of its validation, once finalized.
    pub result: Option<ValidationResult>,
}

/// Mathematical content of an [`OperationEntry`].
pub ghost struct OperationEntryView {
    pub operation: JamOperationView,
    pub session: SessionView,
    pub result: Option<ValidationResultView>,
}

impl View for OperationEntry {
    type V = OperationEntryView;

    open spec fn view(&self) -> OperationEntryView {
        OperationEntryView {
            operation: self.operation@,
            session: self.session@,
            result: match self.result {
                Some(r) => Some(r@),
                None => None,
            },
        }
    }
}

/// The views of a list of entries.
pub open spec fn entry_views(entries: Seq<OperationEntry>) -> Seq<OperationEntryView> {
    Seq::new(entries.len(), |i: int| entries[i]@)
}

/// An operation with identifier `id` is recorded.
pub open spec fn has_operation(entries: Seq<OperationEntryView>, id: MerkleHash) -> bool {
    exists|i: int| 0 <= i < entries.len() && entries[i].operation.id == id
}

/// Position of the operation `id`, which must be recorded.
pub open spec fn operation_index(entries: Seq<OperationEntryView>, id: MerkleHash) -> int {
    choose|i: int| 0 <= i < entries.len() && entries[i].operation.id == id
}

/// No identifier occurs twice.
pub open spec fn distinct_ids(entries: Seq<OperationEntryView>) -> bool {
    forall|i: int, j: int|
        0 <= i < j < entries.len() ==> entries[i].operation.id != entries[j].operation.id
}

/// The operation status that goes with the status of a result.
pub open spec fn status_of_result(status: ValidationStatus) -> JamOperationStatus {
    if status is Success {
        JamOperationStatus::Completed
    } else {
        JamOperationStatus::Failed
    }
}

/// An entry is well formed: the operation expires after it was created, its
/// session is its own and well formed, nobody has attested while it is
/// pending, and it has a result exactly when it is completed or failed, the
/// result that its session gave.
pub open spec fn entry_wf(entry: OperationEntryView) -> bool {
    &&& entry.operation.created_at < entry.operation.expires_at
    &&& entry.session.operation_id == entry.operation.id
    &&& session_wf(entry.session)
    &&& (entry.operation.status is Pending ==> entry.session.attestations.len() == 0)
    &&& (entry.result is Some <==> entry.operation.status is Completed
        || entry.operation.status is Failed)
    &&& (entry.result matches Some(r) ==> {
        &&& r.operation_hash == entry.operation.id
        &&& r.validators == participants(entry.session.attestations)
        &&& (r.status is Success || r.status is Failed)
        &&& entry.operation.status == status_of_result(r.status)
    })
}

/// A registry is well formed: identifiers are unique and every entry is
/// well formed.
pub open spec fn registry_wf(entries: Seq<OperationEntryView>) -> bool {
    &&& distinct_ids(entries)
    &&& forall|i: int| 0 <= i < entries.len() ==> entry_wf(#[trigger] entries[i])
}

/// The operation is past its expiry at `now` and not in a terminal state.
pub open spec fn expires_now(operation: JamOperationView, now: BlockNumber) -> bool {
    now > operation.expires_at && !is_terminal(operation.status)
}

/// The entry with the status of its operation replaced.
pub open spec fn with_op_status(
    entry: OperationEntryView,
    status: JamOperationStatus,
) -> OperationEntryView {
    OperationEntryView {
        operation: JamOperationView { status, ..entry.operation },
        ..entry
    }
}

/// The entry as a call at height `now` finds it: expired if its time has
/// passed before it was finalized, unchanged otherwise.
pub open spec fn touched(entry: OperationEntryView, now: BlockNumber) -> OperationEntryView {
    if expires_now(entry.operation, now) {
        with_op_status(entry, JamOperationStatus::Expired)
    } else {
        entry
    }
}

/// The entry of a newly submitted operation.
pub open spec fn new_entry(operation: JamOperationView, root: MerkleHash) -> OperationEntryView {
    OperationEntryView {
        operation: JamOperationView { status: JamOperationStatus::Pending, ..operation },
        session: SessionView {
            operation_id: operation.id,
            root,
            attestations: Seq::empty(),
        },
        result: None,
    }
}

/// Submitting `operation` under `root`: refused if its identifier is taken
/// or it does not expire after its creation; otherwise recorded as pending.
pub open spec fn submit_step(
    entries: Seq<OperationEntryView>,
    operation: JamOperationView,
    root: MerkleHash,
) -> (Seq<OperationEntryView>, Result<(), Error>) {
    if has_operation(entries, operation.id) {
        (entries, Err(Error::DuplicateOperation))
    } else if operation.expires_at <= operation.created_at {
        (entries, Err(Error::OperationExpired))
    } else {
        (entries.push(new_entry(operation, root)), Ok(()))
    }
}

/// Reading the status of `id` at height `now`.
pub open spec fn status_step(
    entries: Seq<OperationEntryView>,
    id: MerkleHash,
    now: BlockNumber,
) -> (Seq<OperationEntryView>, Result<JamOperationStatus, Error>) {
    if !has_operation(entries, id) {
        (entries, Err(Error::OperationNotFound))
    } else {
        let i = operation_index(entries, id);
        let entry = touched(entries[i], now);
        (entries.update(i, entry), Ok(entry.operation.status))
    }
}

/// Beginning the validation of `id` at height `now`.
pub open spec fn begin_step(
    entries: Seq<OperationEntryView>,
    id: MerkleHash,
    now: BlockNumber,
) -> (Seq<OperationEntryView>, Result<(), Error>) {
    if !has_operation(entries, id) {
        (entries, Err(Error::OperationNotFound))
    } else {
        let i = operation_index(entries, id);
        let entry = touched(entries[i], now);
        if entry.operation.status is Expired {
            (entries.update(i, entry), Err(Error::OperationExpired))
        } else if !(entry.operation.status is Pending) {
            (entries, Err(Error::InvalidTransition))
        } else {
            (entries.update(i, with_op_status(entry, JamOperationStatus::InProgress)), Ok(()))
        }
    }
}

/// Recording an attestation to `id` at height `now`. The first attestation
/// to a pending operation begins its validation. Yields whether the
/// attestation counts.
pub open spec fn attest_step(
    entries: Seq<OperationEntryView>,
    id: MerkleHash,
    validator: AccountId,
    active: bool,
    vote: Vote,
    proof: JamProofView,
    now: BlockNumber,
    cap: nat,
) -> (Seq<OperationEntryView>, Result<bool, Error>) {
    if !has_operation(entries, id) {
        (entries, Err(Error::OperationNotFound))
    } else {
        let i = operation_index(entries, id);
        let entry = touched(entries[i], now);
        let counted = counts(active, proof, entry.session.root);
        if entry.operation.status is Expired {
            (entries.update(i, entry), Err(Error::OperationExpired))
        } else if is_terminal(entry.operation.status) {
            (entries, Err(Error::InvalidTransition))
        } else {
            match attest_refusal(entry.session, validator, counted, cap) {
                Some(e) => (entries, Err(e)),
                None => (
                    entries.update(
                        i,
                        OperationEntryView {
                            operation: JamOperationView {
                                status: JamOperationStatus::InProgress,
                                ..entry.operation
                            },
                            session: with_attestation(
                                entry.session,
                                AttestationView {
                                    validator,
                                    vote,
                                    proof,
                                    timestamp: now,
                                    eligible: counted,
                                },
                            ),
                            result: entry.result,
                        },
                    ),
                    Ok(counted),
                ),
            }
        }
    }
}

/// Finalizing `id` at height `now`, where `threshold` votes make a quorum.
/// Only an operation in progress whose tally has reached the threshold is
/// finalized; its result is written in the same step.
pub open spec fn finalize_step(
    entries: Seq<OperationEntryView>,
    id: MerkleHash,
    threshold: nat,
    now: BlockNumber,
) -> (Seq<OperationEntryView>, Result<ValidationStatus, Error>) {
    if !has_operation(entries, id) {
        (entries, Err(Error::OperationNotFound))
    } else {
        let i = operation_index(entries, id);
        let entry = touched(entries[i], now);
        if entry.operation.status is Expired {
            (entries.update(i, entry), Err(Error::OperationExpired))
        } else if !(entry.operation.status is InProgress) {
            (entries, Err(Error::InvalidTransition))
        } else {
            match session_result(entry.session, threshold, now) {
                None => (entries, Err(Error::InvalidTransition)),
                Some(r) => (
                    entries.update(
                        i,
                        OperationEntryView {
                            operation: JamOperationView {
                                status: status_of_result(r.status),
                                ..entry.operation
                            },
                            session: entry.session,
                            result: Some(r),
                        },
                    ),
                    Ok(r.status),
                ),
            }
        }
    }
}

/// Every entry as a call at height `now` finds it.
pub open spec fn touch_all(entries: Seq<OperationEntryView>, now: BlockNumber) -> Seq<
    OperationEntryView,
> {
    Seq::new(entries.len(), |i: int| touched(entries[i], now))
}

/// In a list without repeated identifiers, an operation is where one finds
/// it.
pub proof fn lemma_operation_index(entries: Seq<OperationEntryView>, id: MerkleHash, at: int)
    requires
        distinct_ids(entries),
        0 <= at < entries.len(),
        entries[at].operation.id == id,
    ensures
        has_operation(entries, id),
        operation_index(entries, id) == at,
{
    let i = operation_index(entries, id);
    if i < at {
        assert(entries[i].operation.id != entries[at].operation.id);
    } else if at < i {
        assert(entries[at].operation.id != entries[i].operation.id);
    }
}

/// The registry of operations, in order of submission.
pub struct OperationRegistry {
    entries: Vec<OperationEntry>,
}

impl View for OperationRegistry {
    type V = Seq<OperationEntryView>;

    closed spec fn view(&self) -> Seq<OperationEntryView> {
        entry_views(self.entries@)
    }
}

impl OperationRegistry {
    /// The registry is well formed: see [`registry_wf`].
    pub open spec fn wf(&self) -> bool {
        registry_wf(self@)
    }

    /// An empty registry.
    pub fn new() -> (registry: Self)
        ensures
            registry.wf(),
            registry@ == Seq::<OperationEntryView>::empty(),
    {
        let registry = OperationRegistry { entries: Vec::new() };
        assert(registry@ =~= Seq::empty());
        registry
    }

    fn find(&self, id: &MerkleHash) -> (at: Option<usize>)
        requires
            self.wf(),
        ensures
            at is Some <==> has_operation(self@, *id),
            at matches Some(i) ==> i < self.entries@.len() && i == operation_index(self@, *id)
                && self@[i as int].operation.id == *id,
    {
        let mut i: usize = 0;
        while i < self.entries.len()
            invariant
                self.wf(),
                i <= self.entries@.len(),
                forall|k: int| 0 <= k < i ==> self@[k].operation.id != *id,
            decreases self.entries@.len() - i,
        {
            if hash_eq(&self.entries[i].operation.id, id) {
                proof {
                    lemma_operation_index(self@, *id, i as int);
                }
                return Some(i);
            }
            i += 1;
        }
        assert(!has_operation(self@, *id)) by {
            if has_operation(self@, *id) {
                let k = operation_index(self@, *id);
                assert(self@[k].operation.id != *id);
            }
        }
        None
    }

    /// Number of operations recorded.
    pub fn len(&self) -> (count: usize)
        ensures
            count == self@.len(),
    {
        self.entries.len()
    }

    /// Whether an operation with identifier `id` is recorded.
    pub fn contains(&self, id: &MerkleHash) -> (found: bool)
        requires
            self.wf(),
        ensures
            found == has_operation(self@, *id),
    {
        self.find(id).is_some()
    }

    /// The entry of `id` as it is stored: no expiry is applied.
    pub fn entry(&self, id: &MerkleHash) -> (found: Option<&OperationEntry>)
        requires
            self.wf(),
        ensures
            found is Some <==> has_operation(self@, *id),
            found matches Some(e) ==> e@ == self@[operation_index(self@, *id)],
    {
        match self.find(id) {
            Some(i) => Some(&self.entries[i]),
            None => None,
        }
    }

    fn touch(&mut self, at: usize, now: BlockNumber) -> (status: JamOperationStatus)
        requires
            old(self).wf(),
            at < old(self)@.len(),
        ensures
            final(self).wf(),
            final(self)@ == old(self)@.update(at as int, touched(old(self)@[at as int], now)),
            final(self).entries@.len() == old(self).entries@.len(),
            status == touched(old(self)@[at as int], now).operation.status,
    {
        let status = self.entries[at].operation.status;
        let open: bool = match status {
            JamOperationStatus::Pending => true,
            JamOperationStatus::InProgress => true,
            _ => false,
        };
        if now > self.entries[at].operation.expires_at && open {
            self.entries[at].operation.status = JamOperationStatus::Expired;
            proof {
                assert(self@ =~= old(self)@.update(
                    at as int,
                    touched(old(self)@[at as int], now),
                ));
            }
            JamOperationStatus::Expired
        } else {
            proof {
                assert(self@ =~= old(self)@.update(
                    at as int,
                    touched(old(self)@[at as int], now),
                ));
            }
            status
        }
    }

    /// Records `operation`, submitted under the operation-set root `root`,
    /// as pending.
    pub fn submit(&mut self, operation: JamOperation, root: MerkleHash) -> (result: Result<
        (),
        Error,
    >)
        requires
            old(self).wf(),
        ensures
            final(self).wf(),
            (final(self)@, result) == submit_step(old(self)@, operation@, root),
    {
        if self.find(&operation.id).is_some() {
            return Err(Error::DuplicateOperation);
        }
        if operation.expires_at <= operation.created_at {
            return Err(Error::OperationExpired);
        }
        let session = ValidationSession::new(operation.id, root);
        let ghost submitted = operation@;
        let mut pending = operation;
        pending.status = JamOperationStatus::Pending;
        self.entries.push(OperationEntry { operation: pending, session, result: None });
        proof {
            assert(self@ =~= old(self)@.push(new_entry(submitted, root)));
        }
        Ok(())
    }

    /// The status of `id` at height `now`.
    pub fn status(&mut self, id: &MerkleHash, now: BlockNumber) -> (result: Result<
        JamOperationStatus,
        Error,
    >)
        requires
            old(self).wf(),
        ensures
            final(self).wf(),
            (final(self)@, result) == status_step(old(self)@, *id, now),
    {
        match self.find(id) {
            None => Err(Error::OperationNotFound),
            Some(i) => {
                let status = self.touch(i, now);
                Ok(status)
            },
        }
    }

    /// Moves `id` from pending to in progress.
    pub fn begin_validation(&mut self, id: &MerkleHash, now: BlockNumber) -> (result: Result<
        (),
        Error,
    >)
        requires
            old(self).wf(),
        ensures
            final(self).wf(),
            (final(self)@, result) == begin_step(old(self)@, *id, now),
    {
        match self.find(id) {
            None => Err(Error::OperationNotFound),
            Some(i) => {
                let status = self.touch(i, now);
                match status {
                    JamOperationStatus::Expired => Err(Error::OperationExpired),
                    JamOperationStatus::Pending => {
                        assert(self@ =~= old(self)@);
                        self.entries[i].operation.status = JamOperationStatus::InProgress;
                        proof {
                            assert(self@[i as int] == with_op_status(
                                old(self)@[i as int],
                                JamOperationStatus::InProgress,
                            ));
                            assert(self@ =~= begin_step(old(self)@, *id, now).0);
                        }
                        Ok(())
                    },
                    _ => {
                        proof {
                            assert(self@ =~= old(self)@);
                        }
                        Err(Error::InvalidTransition)
                    },
                }
            },
        }
    }

    /// Records the attestation of `validator` to `id`, cast at height `now`.
    ///
    /// `active` says whether the validator is active now; `cap` is the
    /// greatest number of attestations that may count for one operation.
    /// Returns whether the attestation counts toward the quorum.
    pub fn attest(
        &mut self,
        id: &MerkleHash,
        validator: AccountId,
        active: bool,
        vote: Vote,
        proof: JamProof,
        now: BlockNumber,
        cap: usize,
    ) -> (result: Result<bool, Error>)
        requires
            old(self).wf(),
        ensures
            final(self).wf(),
            (final(self)@, result) == attest_step(
                old(self)@,
                *id,
                validator,
                active,
                vote,
                proof@,
                now,
                cap as nat,
            ),
    {
        match self.find(id) {
            None => Err(Error::OperationNotFound),
            Some(i) => {
                let status = self.touch(i, now);
                match status {
                    JamOperationStatus::Expired => Err(Error::OperationExpired),
                    JamOperationStatus::Completed => {
                        proof {
                            assert(self@ =~= old(self)@);
                        }
                        Err(Error::InvalidTransition)
                    },
                    JamOperationStatus::Failed => {
                        proof {
                            assert(self@ =~= old(self)@);
                        }
                        Err(Error::InvalidTransition)
                    },
                    _ => {
                        let ghost before = self@;
                        assert(before =~= old(self)@);
                        let outcome = self.entries[i].session.attest(
                            validator,
                            active,
                            vote,
                            proof,
                            now,
                            cap,
                        );
                        match outcome {
                            Err(e) => {
                                proof {
                                    assert(self@ =~= old(self)@);
                                }
                                Err(e)
                            },
                            Ok(counted) => {
                                self.entries[i].operation.status = JamOperationStatus::InProgress;
                                proof {
                                    assert(self@ =~= attest_step(
                                        old(self)@,
                                        *id,
                                        validator,
                                        active,
                                        vote,
                                        proof@,
                                        now,
                                        cap as nat,
                                    ).0);
                                }
                                Ok(counted)
                            },
                        }
                    },
                }
            },
        }
    }

    /// Finalizes `id` at height `now` if its tally has reached `threshold`,
    /// and writes its result.
    pub fn finalize(&mut self, id: &MerkleHash, threshold: usize, now: BlockNumber) -> (result:
        Result<ValidationStatus, Error>)
        requires
            old(self).wf(),
        ensures
            final(self).wf(),
            (final(self)@, result) == finalize_step(old(self)@, *id, threshold as nat, now),
    {
        match self.find(id) {
            None => Err(Error::OperationNotFound),
            Some(i) => {
                let status = self.touch(i, now);
                match status {
                    JamOperationStatus::Expired => Err(Error::OperationExpired),
                    JamOperationStatus::InProgress => {
                        assert(self@ =~= old(self)@);
                        let concluded = self.entries[i].session.conclude(threshold, now);
                        match concluded {
                            None => Err(Error::InvalidTransition),
                            Some(r) => {
                                let verdict = r.status;
                                self.entries[i].operation.status = match verdict {
                                    ValidationStatus::Success => JamOperationStatus::Completed,
                                    _ => JamOperationStatus::Failed,
                                };
                                self.entries[i].result = Some(r);
                                proof {
                                    assert(self@ =~= finalize_step(
                                        old(self)@,
                                        *id,
                                        threshold as nat,
                                        now,
                                    ).0);
                                }
                                Ok(verdict)
                            },
                        }
                    },
                    _ => {
                        proof {
                            assert(self@ =~= old(self)@);
                        }
                        Err(Error::InvalidTransition)
                    },
                }
            },
        }
    }

    /// Touches every operation at height `now`: those whose time has passed
    /// before they were finalized become expired.
    pub fn touch_all(&mut self, now: BlockNumber)
        requires
            old(self).wf(),
        ensures
            final(self).wf(),
            final(self)@ == touch_all(old(self)@, now),
    {
        let mut i: usize = 0;
        while i < self.entries.len()
            invariant
                self.wf(),
                i <= self@.len(),
                self@.len() == old(self)@.len(),
                forall|k: int| 0 <= k < i ==> self@[k] == touched(old(self)@[k], now),
                forall|k: int| i <= k < self@.len() ==> self@[k] == old(self)@[k],
            decreases self@.len() - i,
        {
            let _ = self.touch(i, now);
            i += 1;
        }
        assert(self@ =~= touch_all(old(self)@, now));
    }
}

} // verus!
