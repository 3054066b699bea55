//! The coordinator: the one entry point through which validators are
//! registered, operations are submitted and votes are cast.
//!
//! Every call is a complete state transition or none at all, with one
//! exception that the lifecycle asks for: a call that finds an operation
//! past its expiry marks it expired and is refused. The caller supplies the
//! current height and the authenticated account with every call.

use vstd::prelude::*;
use crate::types::AccountId;
use crate::types::Balance;
use crate::types::BlockNumber;
use crate::types::Error;
use crate::types::Event;
use crate::types::JamOperationStatus;
use crate::types::JamOperationType;
use crate::types::ValidatorStatus;
use crate::types::Vote;
use crate::hashing::MerkleHash;
use crate::hashing::digest_bytes;
use crate::merkle::JamProof;
use crate::merkle::JamProofView;
use crate::merkle::inclusion_proof;
use crate::merkle::item_views;
use crate::merkle::merkle_root;
use crate::merkle::prove;
use crate::operations::JamOperation;
use crate::operations::JamOperationView;
use crate::operations::OperationEntry;
use crate::operations::OperationEntryView;
use crate::operations::OperationRegistry;
use crate::operations::attest_step;
use crate::operations::finalize_step;
use crate::operations::has_operation;
use crate::operations::new_entry;
use crate::operations::operation_digest;
use crate::operations::operation_id;
use crate::operations::operation_index;
use crate::operations::registry_wf;
use crate::operations::status_step;
use crate::operations::touch_all;
use crate::pipeline::result_view;
use crate::pipeline::run_pipeline;
use crate::session::AttestationView;
use crate::session::QuorumRule;
use crate::session::quorum_threshold;
use crate::session::tally;
use crate::session::lemma_tally_push;
use crate::validators::ValidatorRegistry;
use crate::validators::ValidatorRegistryView;
use crate::validators::ValidatorState;
use crate::validators::active_count;
use crate::validators::distinct_accounts;
use crate::validators::is_active;
use crate::validators::is_registered;
use crate::validators::register_step;
use crate::validators::remove_step;
use crate::validators::set_status_step;
use crate::validators::validator_index;
use crate::validators::vote_step;

verus! {

/// Greatest number of counted validators per operation that the standard
/// configuration allows.
pub const MAX_VALIDATORS_PER_OPERATION: usize = 10;

/// Greatest length of a payload that the standard configuration admits.
pub const MAX_QUANTUM_STATE_SIZE: usize = 1024;

/// The limits a coordinator works under.
#[derive(Clone, Copy, PartialEq, Eq, Debug)]
pub struct CoordinatorConfig {
    /// The fraction of the active validators that makes a quorum.
    pub quorum: QuorumRule,
    /// Greatest length of a payload.
    pub max_payload_len: usize,
    /// Greatest number of attestations that count for one operation.
    pub max_validators_per_operation: usize,
    /// Least stake of a validator.
    pub min_stake: Balance,
    /// Greatest length of a validator's public key.
    pub max_key_len: usize,
}

impl CoordinatorConfig {
    /// A quorum of two thirds, the standard limits, and no minimum stake.
    pub fn standard() -> (config: CoordinatorConfig)
        ensures
            config.quorum.wf(),
            config.quorum.numerator() == 2,
            config.quorum.denominator() == 3,
            config.max_payload_len == MAX_QUANTUM_STATE_SIZE,
            config.max_validators_per_operation == MAX_VALIDATORS_PER_OPERATION,
            config.min_stake == 0,
            config.max_key_len == MAX_QUANTUM_STATE_SIZE,
    {
        CoordinatorConfig {
            quorum: QuorumRule::two_thirds(),
            max_payload_len: MAX_QUANTUM_STATE_SIZE,
            max_validators_per_operation: MAX_VALIDATORS_PER_OPERATION,
            min_stake: 0,
            max_key_len: MAX_QUANTUM_STATE_SIZE,
        }
    }
}

/// Mathematical content of a [`JamCoordinator`].
pub ghost struct CoordinatorView {
    /// The fraction of the active validators that makes a quorum.
    pub quorum: QuorumRule,
    /// Greatest length of a payload.
    pub max_payload_len: usize,
    /// Greatest number of attestations that count for one operation.
    pub max_validators_per_operation: usize,
    /// The validator registry.
    pub validators: ValidatorRegistryView,
    /// The operation registry.
    pub operations: Seq<OperationEntryView>,
    /// Height of the block whose operation set is being collected.
    pub block_height: BlockNumber,
    /// Identifiers of the operations submitted at that height, in order.
    pub block_items: Seq<Seq<u8>>,
    /// Events emitted and not yet taken.
    pub events: Seq<Event>,
}

/// No operation has more counted attestations than `cap`.
pub open spec fn within_cap(operations: Seq<OperationEntryView>, cap: nat) -> bool {
    forall|i: int|
        0 <= i < operations.len() ==> tally(#[trigger] operations[i].session.attestations)
            <= cap
}

/// A coordinator is well formed: its quorum is a fraction in `(0, 1]`, no
/// account is registered twice, its operation registry is well formed, and
/// no operation has more counted attestations than the configured maximum.
pub open spec fn coordinator_wf(c: CoordinatorView) -> bool {
    &&& c.quorum.wf()
    &&& distinct_accounts(c.validators.validators)
    &&& registry_wf(c.operations)
    &&& within_cap(c.operations, c.max_validators_per_operation as nat)
}

/// The state with one more event, if `emit` holds.
pub open spec fn emitting(c: CoordinatorView, emit: bool, event: Event) -> CoordinatorView {
    if emit {
        CoordinatorView { events: c.events.push(event), ..c }
    } else {
        c
    }
}

/// Registering a validator.
pub open spec fn register_validator_step(
    c: CoordinatorView,
    account: AccountId,
    stake: Balance,
    public_key: Seq<u8>,
    now: BlockNumber,
) -> (CoordinatorView, Result<(), Error>) {
    let (validators, result) = register_step(c.validators, account, stake, public_key, now);
    (
        emitting(
            CoordinatorView { validators, ..c },
            result is Ok,
            Event::ValidatorRegistered { validator: account },
        ),
        result,
    )
}

/// Removing a validator.
pub open spec fn remove_validator_step(c: CoordinatorView, account: AccountId) -> (
    CoordinatorView,
    Result<(), Error>,
) {
    let (validators, result) = remove_step(c.validators, account);
    (
        emitting(
            CoordinatorView { validators, ..c },
            result is Ok,
            Event::ValidatorRemoved { validator: account },
        ),
        result,
    )
}

/// Changing the status of a validator.
pub open spec fn update_validator_step(
    c: CoordinatorView,
    account: AccountId,
    status: ValidatorStatus,
    now: BlockNumber,
) -> (CoordinatorView, Result<(), Error>) {
    let (validators, result) = set_status_step(c.validators, account, status, now);
    (
        emitting(
            CoordinatorView { validators, ..c },
            result is Ok,
            Event::ValidatorUpdated { validator: account },
        ),
        result,
    )
}

/// The operation set of the block at height `now`, before a submission at
/// that height is added to it.
pub open spec fn open_block(c: CoordinatorView, now: BlockNumber) -> Seq<Seq<u8>> {
    if now == c.block_height {
        c.block_items
    } else {
        Seq::empty()
    }
}

/// Why an operation is not admitted, if it is not. The checks are made in
/// this order.
pub open spec fn admit_refusal(
    c: CoordinatorView,
    initiator: AccountId,
    target_parachain_id: u32,
    kind: JamOperationType,
    gated: Result<Seq<u8>, Error>,
    expires_at: BlockNumber,
    now: BlockNumber,
) -> Option<Error> {
    match gated {
        Err(e) => Some(e),
        Ok(payload) => if payload.len() > c.max_payload_len {
            Some(Error::QuantumStateTooLarge)
        } else if expires_at <= now {
            Some(Error::OperationExpired)
        } else if has_operation(
            c.operations,
            operation_digest(initiator, target_parachain_id, kind, payload, now, expires_at),
        ) {
            Some(Error::DuplicateOperation)
        } else {
            None
        },
    }
}

/// Admitting an operation whose payload has been through the correction
/// pipeline, at height `now`.
///
/// The operation is identified by the digest of its content. It joins the
/// operation set of its block; the root of that set, with the operation in
/// it, is the root its validators' proofs are checked against, and the proof
/// of its own inclusion is stored with it.
pub open spec fn admit_step(
    c: CoordinatorView,
    initiator: AccountId,
    target_parachain_id: u32,
    kind: JamOperationType,
    gated: Result<Seq<u8>, Error>,
    expires_at: BlockNumber,
    now: BlockNumber,
) -> (CoordinatorView, Result<MerkleHash, Error>) {
    match admit_refusal(c, initiator, target_parachain_id, kind, gated, expires_at, now) {
        Some(e) => (c, Err(e)),
        None => {
            let payload = gated->Ok_0;
            let id = operation_digest(
                initiator,
                target_parachain_id,
                kind,
                payload,
                now,
                expires_at,
            );
            let items = open_block(c, now).push(id@);
            let operation = JamOperationView {
                id,
                initiator,
                target_parachain_id,
                operation_type: kind,
                data: payload,
                created_at: now,
                expires_at,
                proofs: seq![inclusion_proof(items, items.len() - 1)],
                status: JamOperationStatus::Pending,
            };
            (
                CoordinatorView {
                    operations: c.operations.push(new_entry(operation, merkle_root(items))),
                    block_height: now,
                    block_items: items,
                    events: c.events.push(
                        Event::OperationSubmitted { operation_hash: id, submitter: initiator },
                    ),
                    ..c
                },
                Ok(id),
            )
        },
    }
}

/// Casting a vote at height `now`.
///
/// An account that is not a validator is refused. The attestation of a
/// validator is recorded with the operation; it counts when the validator
/// is active and its proof verifies. An active validator's metrics take the
/// attestation in: a success if it counts, a failure if not. Then the votes
/// are tallied against the quorum among the validators active at this
/// moment, and the operation is finalized if the tally has reached it.
pub open spec fn cast_vote_step(
    c: CoordinatorView,
    validator: AccountId,
    id: MerkleHash,
    vote: Vote,
    proof: JamProofView,
    duration_ms: u32,
    now: BlockNumber,
) -> (CoordinatorView, Result<(), Error>) {
    if !is_registered(c.validators.validators, validator) {
        (c, Err(Error::ValidatorNotFound))
    } else {
        let active = is_active(c.validators.validators, validator);
        let (attested, outcome) = attest_step(
            c.operations,
            id,
            validator,
            active,
            vote,
            proof,
            now,
            c.max_validators_per_operation as nat,
        );
        match outcome {
            Err(e) => (CoordinatorView { operations: attested, ..c }, Err(e)),
            Ok(counted) => {
                let validators = if active {
                    vote_step(c.validators, validator, counted, duration_ms, now).0
                } else {
                    c.validators
                };
                let threshold = quorum_threshold(
                    active_count(validators.validators),
                    c.quorum.numerator(),
                    c.quorum.denominator(),
                );
                let (finalized, verdict) = finalize_step(attested, id, threshold, now);
                (
                    emitting(
                        CoordinatorView { validators, operations: finalized, ..c },
                        verdict is Ok,
                        Event::OperationValidated {
                            operation_hash: id,
                            status: verdict->Ok_0,
                        },
                    ),
                    Ok(()),
                )
            },
        }
    }
}

/// Coordinates validators, operations and votes.
pub struct JamCoordinator {
    config: CoordinatorConfig,
    validators: ValidatorRegistry,
    operations: OperationRegistry,
    block_height: BlockNumber,
    block_items: Vec<Vec<u8>>,
    events: Vec<Event>,
}

impl View for JamCoordinator {
    type V = CoordinatorView;

    closed spec fn view(&self) -> CoordinatorView {
        CoordinatorView {
            quorum: self.config.quorum,
            max_payload_len: self.config.max_payload_len,
            max_validators_per_operation: self.config.max_validators_per_operation,
            validators: self.validators@,
            operations: self.operations@,
            block_height: self.block_height,
            block_items: item_views(self.block_items@),
            events: self.events@,
        }
    }
}

impl JamCoordinator {
    /// The coordinator is well formed: see [`coordinator_wf`].
    pub open spec fn wf(&self) -> bool {
        coordinator_wf(self@)
    }

    /// A coordinator with no validators and no operations.
    pub fn new(config: CoordinatorConfig) -> (coordinator: Self)
        ensures
            coordinator.wf(),
            coordinator@ == (CoordinatorView {
                quorum: config.quorum,
                max_payload_len: config.max_payload_len,
                max_validators_per_operation: config.max_validators_per_operation,
                validators: ValidatorRegistryView {
                    validators: Seq::empty(),
                    min_stake: config.min_stake,
                    max_key_len: config.max_key_len,
                },
                operations: Seq::empty(),
                block_height: 0,
                block_items: Seq::empty(),
                events: Seq::empty(),
            }),
    {
        proof {
            use_type_invariant(&config.quorum);
        }
        let coordinator = JamCoordinator {
            config,
            validators: ValidatorRegistry::new(config.min_stake, config.max_key_len),
            operations: OperationRegistry::new(),
            block_height: 0,
            block_items: Vec::new(),
            events: Vec::new(),
        };
        assert(coordinator@.block_items =~= Seq::empty());
        assert(coordinator@.events =~= Seq::empty());
        coordinator
    }

    /// Registers `account` as an active validator.
    pub fn register_validator(
        &mut self,
        account: AccountId,
        stake: Balance,
        public_key: Vec<u8>,
        now: BlockNumber,
    ) -> (result: Result<(), Error>)
        requires
            old(self).wf(),
        ensures
            final(self).wf(),
            (final(self)@, result) == register_validator_step(
                old(self)@,
                account,
                stake,
                public_key@,
                now,
            ),
    {
        let result = self.validators.register(account, stake, public_key, now);
        if result.is_ok() {
            self.events.push(Event::ValidatorRegistered { validator: account });
        }
        result
    }

    /// Removes the validator `account`.
    pub fn remove_validator(&mut self, account: AccountId) -> (result: Result<(), Error>)
        requires
            old(self).wf(),
        ensures
            final(self).wf(),
            (final(self)@, result) == remove_validator_step(old(self)@, account),
    {
        let result = self.validators.remove(account);
        if result.is_ok() {
            self.events.push(Event::ValidatorRemoved { validator: account });
        }
        result
    }

    /// Changes the status of the validator `account`.
    pub fn update_validator(
        &mut self,
        account: AccountId,
        status: ValidatorStatus,
        now: BlockNumber,
    ) -> (result: Result<(), Error>)
        requires
            old(self).wf(),
        ensures
            final(self).wf(),
            (final(self)@, result) == update_validator_step(old(self)@, account, status, now),
    {
        let result = self.validators.set_status(account, status, now);
        if result.is_ok() {
            self.events.push(Event::ValidatorUpdated { validator: account });
        }
        result
    }

    /// Whether `account` is a validator.
    pub fn is_validator(&self, account: AccountId) -> (registered: bool)
        requires
            self.wf(),
        ensures
            registered == is_registered(self@.validators.validators, account),
    {
        self.validators.is_validator(account)
    }

    /// The record of the validator `account`.
    pub fn get_validator(&self, account: AccountId) -> (state: Option<&ValidatorState>)
        requires
            self.wf(),
        ensures
            state is Some <==> is_registered(self@.validators.validators, account),
            state matches Some(s) ==> s@ == self@.validators.validators[validator_index(
                self@.validators.validators,
                account,
            )],
    {
        self.validators.get(account)
    }

    /// Admits an operation whose payload has been through the correction
    /// pipeline; `gated` is what the pipeline returned. Returns the
    /// identifier of the operation.
    pub fn admit_operation(
        &mut self,
        initiator: AccountId,
        target_parachain_id: u32,
        kind: JamOperationType,
        gated: Result<Vec<u8>, Error>,
        expires_at: BlockNumber,
        now: BlockNumber,
    ) -> (result: Result<MerkleHash, Error>)
        requires
            old(self).wf(),
        ensures
            final(self).wf(),
            (final(self)@, result) == admit_step(
                old(self)@,
                initiator,
                target_parachain_id,
                kind,
                result_view(gated),
                expires_at,
                now,
            ),
    {
        let payload = match gated {
            Err(e) => {
                return Err(e);
            },
            Ok(payload) => payload,
        };
        if payload.len() > self.config.max_payload_len {
            return Err(Error::QuantumStateTooLarge);
        }
        if expires_at <= now {
            return Err(Error::OperationExpired);
        }
        let id = operation_id(initiator, target_parachain_id, kind, &payload, now, expires_at);
        if self.operations.contains(&id) {
            return Err(Error::DuplicateOperation);
        }
        if now != self.block_height {
            self.block_items = Vec::new();
            self.block_height = now;
        }
        self.block_items.push(digest_bytes(&id));
        let last: usize = self.block_items.len() - 1;
        let ghost items = item_views(self.block_items@);
        proof {
            assert(items =~= open_block(old(self)@, now).push(id@));
        }
        let proof = prove(&self.block_items[last], &self.block_items, last as u64).unwrap();
        let root = proof.merkle_root;
        let mut proofs: Vec<JamProof> = Vec::new();
        proofs.push(proof);
        let operation = JamOperation {
            id,
            initiator,
            target_parachain_id,
            operation_type: kind,
            data: payload,
            created_at: now,
            expires_at,
            proofs,
            status: JamOperationStatus::Pending,
        };
        proof {
            assert(operation@.proofs =~= seq![inclusion_proof(items, items.len() - 1)]);
        }
        let _ = self.operations.submit(operation, root);
        self.events.push(Event::OperationSubmitted { operation_hash: id, submitter: initiator });
        Ok(id)
    }

    /// Submits an operation: runs `payload` through the correction pipeline
    /// and admits what comes out. Returns the identifier of the operation.
    pub fn submit_operation(
        &mut self,
        initiator: AccountId,
        target_parachain_id: u32,
        kind: JamOperationType,
        payload: Vec<u8>,
        expires_at: BlockNumber,
        now: BlockNumber,
    ) -> (result: Result<MerkleHash, Error>)
        requires
            old(self).wf(),
        ensures
            final(self).wf(),
            (final(self)@, result) == admit_step(
                old(self)@,
                initiator,
                target_parachain_id,
                kind,
                Ok(payload@),
                expires_at,
                now,
            ),
    {
        let gated = run_pipeline(&payload);
        self.admit_operation(initiator, target_parachain_id, kind, gated, expires_at, now)
    }

    /// Casts the vote of `validator` on the operation `id`, with the proof
    /// that justifies it. `duration_ms` is the time the validator's check
    /// took.
    pub fn cast_vote(
        &mut self,
        validator: AccountId,
        id: &MerkleHash,
        vote: Vote,
        proof: JamProof,
        duration_ms: u32,
        now: BlockNumber,
    ) -> (result: Result<(), Error>)
        requires
            old(self).wf(),
        ensures
            final(self).wf(),
            (final(self)@, result) == cast_vote_step(
                old(self)@,
                validator,
                *id,
                vote,
                proof@,
                duration_ms,
                now,
            ),
    {
        if !self.validators.is_validator(validator) {
            return Err(Error::ValidatorNotFound);
        }
        let active: bool = self.validators.is_active_validator(validator);
        let attested = self.operations.attest(
            id,
            validator,
            active,
            vote,
            proof,
            now,
            self.config.max_validators_per_operation,
        );
        let counted: bool = match attested {
            Err(e) => {
                return Err(e);
            },
            Ok(counted) => counted,
        };
        proof {
            let before = old(self)@.operations;
            let i = operation_index(before, *id);
            lemma_tally_push(
                before[i].session.attestations,
                AttestationView { validator, vote, proof: proof@, timestamp: now, eligible: counted },
            );
            assert(within_cap(self@.operations, self@.max_validators_per_operation as nat));
        }
        if active {
            let _ = self.validators.record_vote(validator, counted, duration_ms, now);
        }
        let threshold: usize = self.config.quorum.threshold(self.validators.count_active());
        match self.operations.finalize(id, threshold, now) {
            Ok(status) => {
                self.events.push(Event::OperationValidated { operation_hash: *id, status });
            },
            Err(_) => {},
        }
        Ok(())
    }

    /// The status of the operation `id` at height `now`.
    pub fn get_operation_status(&mut self, id: &MerkleHash, now: BlockNumber) -> (result: Result<
        JamOperationStatus,
        Error,
    >)
        requires
            old(self).wf(),
        ensures
            final(self).wf(),
            final(self)@ == (CoordinatorView {
                operations: status_step(old(self)@.operations, *id, now).0,
                ..old(self)@
            }),
            result == status_step(old(self)@.operations, *id, now).1,
    {
        self.operations.status(id, now)
    }

    /// The record of the operation `id` as it is stored: no expiry is
    /// applied.
    pub fn get_operation(&self, id: &MerkleHash) -> (found: Option<&OperationEntry>)
        requires
            self.wf(),
        ensures
            found is Some <==> has_operation(self@.operations, *id),
            found matches Some(e) ==> e@ == self@.operations[operation_index(
                self@.operations,
                *id,
            )],
    {
        self.operations.entry(id)
    }

    /// Brings every operation up to height `now`: those whose time has
    /// passed before they were finalized become expired.
    pub fn execute_operations(&mut self, now: BlockNumber)
        requires
            old(self).wf(),
        ensures
            final(self).wf(),
            final(self)@ == (CoordinatorView {
                operations: touch_all(old(self)@.operations, now),
                ..old(self)@
            }),
    {
        self.operations.touch_all(now);
    }

    /// Hands out the events emitted since the last call, oldest first.
    pub fn take_events(&mut self) -> (events: Vec<Event>)
        requires
            old(self).wf(),
        ensures
            final(self).wf(),
            events@ == old(self)@.events,
            final(self)@ == (CoordinatorView { events: Seq::empty(), ..old(self)@ }),
    {
        let mut events: Vec<Event> = Vec::new();
        std::mem::swap(&mut events, &mut self.events);
        events
    }
}

} // verus!
