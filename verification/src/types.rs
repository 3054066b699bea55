//! Identifiers and the error type shared by every component.

use vstd::prelude::*;
use crate::hashing::MerkleHash;

verus! {

/// Identifier of an authenticated caller.
pub type AccountId = u64;

/// Height of a block; the only clock the crate knows.
pub type BlockNumber = u64;

/// Amount of stake.
pub type Balance = u128;

/// One of the three correction layers, in the order in which they run.
#[derive(Clone, Copy, PartialEq, Eq, Debug, Structural)]
pub enum Stage {
    /// Classical error correction.
    Classical,
    /// Correction of the bridge protocol.
    Bridge,
    /// Quantum error correction.
    Quantum,
}

/// Kinds of cross-chain operation.
#[derive(Clone, Copy, PartialEq, Eq, Debug, Structural)]
pub enum JamOperationType {
    /// Cross-chain asset transfer.
    AssetTransfer,
    /// Cross-chain message passing.
    MessagePassing,
    /// Quantum state teleportation.
    QuantumTeleportation,
    /// Smart contract call.
    SmartContractCall,
    /// Validator set update.
    ValidatorSetUpdate,
    /// Custom operation.
    Custom(u8),
}

/// Where an operation stands in its life.
#[derive(Clone, Copy, PartialEq, Eq, Debug, Structural)]
pub enum JamOperationStatus {
    /// Submitted; no validator has attested yet.
    Pending,
    /// Validators are attesting.
    InProgress,
    /// Finalized with approval.
    Completed,
    /// Finalized without approval.
    Failed,
    /// Abandoned: its expiry height has passed.
    Expired,
}

/// Standing of a validator.
#[derive(Clone, Copy, PartialEq, Eq, Debug, Structural)]
pub enum ValidatorStatus {
    /// Active and ready to validate.
    Active,
    /// Temporarily offline.
    Offline,
    /// Slashed or penalized.
    Slashed,
    /// Leaving the validator set.
    Leaving,
}

/// Status of a validation.
#[derive(Clone, Copy, PartialEq, Eq, Debug, Structural)]
pub enum ValidationStatus {
    /// Successfully validated.
    Success,
    /// Failed validation.
    Failed,
    /// Validation in progress.
    InProgress,
    /// Validation expired.
    Expired,
}

/// A validator's verdict on an operation.
#[derive(Clone, Copy, PartialEq, Eq, Debug, Structural)]
pub enum Vote {
    /// The operation should complete.
    Approve,
    /// The operation should fail.
    Reject,
}

/// What the coordinator tells its observers.
#[derive(Clone, Copy, PartialEq, Eq, Debug)]
pub enum Event {
    /// A new validator has been registered.
    ValidatorRegistered { validator: AccountId },
    /// A validator's status has been changed.
    ValidatorUpdated { validator: AccountId },
    /// A validator has been removed.
    ValidatorRemoved { validator: AccountId },
    /// A new operation was submitted.
    OperationSubmitted { operation_hash: MerkleHash, submitter: AccountId },
    /// An operation was validated.
    OperationValidated { operation_hash: MerkleHash, status: ValidationStatus },
}

/// Whether an operation status is terminal: no transition leaves it.
pub open spec fn is_terminal(status: JamOperationStatus) -> bool {
    status is Completed || status is Failed || status is Expired
}

/// Why a call was refused.
#[derive(Clone, Copy, PartialEq, Eq, Debug, Structural)]
pub enum Error {
    /// The account is already a validator.
    ValidatorAlreadyRegistered,
    /// The account is not a validator.
    ValidatorNotFound,
    /// The stake is below the configured minimum.
    InsufficientStake,
    /// The validator is registered but not active.
    ValidatorNotActive,
    /// An operation with this identifier exists already.
    DuplicateOperation,
    /// No operation has this identifier.
    OperationNotFound,
    /// The operation has passed its expiry height.
    OperationExpired,
    /// The operation is not in a state that allows the call.
    InvalidTransition,
    /// The validator has already attested to this operation.
    DuplicateVote,
    /// The named correction stage rejected the payload.
    CorrectionFailed(Stage),
    /// The operation already has as many counted validators as it may have.
    TooManyValidators,
    /// The payload or key is longer than the configured maximum.
    QuantumStateTooLarge,
}

} // verus!
