//! The validator registry: who may attest, and how well they have done.

use vstd::prelude::*;
use crate::types::AccountId;
use crate::types::Balance;
use crate::types::BlockNumber;
use crate::types::Error;
use crate::types::ValidatorStatus;
use crate::hashing::copy_bytes;

verus! {

/// Validator performance metrics.
#[derive(Clone, Copy, PartialEq, Eq, Debug, Structural)]
pub struct ValidatorMetrics {
    /// Total operations validated.
    pub operations_validated: u64,
    /// Successful validations.
    pub successful_validations: u64,
    /// Failed validations.
    pub failed_validations: u64,
    /// Average validation time, in milliseconds.
    pub avg_validation_time_ms: u32,
}

/// What the registry knows of one validator.
#[derive(Debug, PartialEq, Eq)]
pub struct ValidatorState {
    /// The validator's account.
    pub account: AccountId,
    /// Current stake amount.
    pub stake: Balance,
    /// Validator status.
    pub status: ValidatorStatus,
    /// Quantum public key.
    pub quantum_pubkey: Vec<u8>,
    /// Performance metrics.
    pub metrics: ValidatorMetrics,
    /// Height of the last change to this record.
    pub last_update: BlockNumber,
}

/// Mathematical content of a [`ValidatorState`].
pub ghost struct ValidatorStateView {
    pub account: AccountId,
    pub stake: Balance,
    pub status: ValidatorStatus,
    pub quantum_pubkey: Seq<u8>,
    pub metrics: ValidatorMetrics,
    pub last_update: BlockNumber,
}

impl View for ValidatorState {
    type V = ValidatorStateView;

    open spec fn view(&self) -> ValidatorStateView {
        ValidatorStateView {
            account: self.account,
            stake: self.stake,
            status: self.status,
            quantum_pubkey: self.quantum_pubkey@,
            metrics: self.metrics,
            last_update: self.last_update,
        }
    }
}

impl Clone for ValidatorState {
    fn clone(&self) -> (copy: Self)
        ensures
            copy@ == self@,
    {
        ValidatorState {
            account: self.account,
            stake: self.stake,
            status: self.status,
            quantum_pubkey: copy_bytes(&self.quantum_pubkey),
            metrics: self.metrics,
            last_update: self.last_update,
        }
    }
}

/// Metrics of a validator that has not attested yet.
pub open spec fn fresh_metrics() -> ValidatorMetrics {
    ValidatorMetrics {
        operations_validated: 0,
        successful_validations: 0,
        failed_validations: 0,
        avg_validation_time_ms: 0,
    }
}

/// A counter after one more event; it stays at its maximum once there.
pub open spec fn bumped(count: u64) -> u64 {
    if count < u64::MAX {
        (count + 1) as u64
    } else {
        count
    }
}

/// Mean of `count + 1` durations, given the mean of the first `count` and
/// the last one, rounded down.
pub open spec fn running_mean(mean: u32, count: u64, duration_ms: u32) -> u32 {
    ((mean as int * count as int + duration_ms as int) / (count as int + 1)) as u32
}

/// Metrics after one more attestation that took `duration_ms`.
pub open spec fn metrics_after_vote(
    metrics: ValidatorMetrics,
    succeeded: bool,
    duration_ms: u32,
) -> ValidatorMetrics {
    ValidatorMetrics {
        operations_validated: bumped(metrics.operations_validated),
        successful_validations: if succeeded {
            bumped(metrics.successful_validations)
        } else {
            metrics.successful_validations
        },
        failed_validations: if succeeded {
            metrics.failed_validations
        } else {
            bumped(metrics.failed_validations)
        },
        avg_validation_time_ms: running_mean(
            metrics.avg_validation_time_ms,
            metrics.operations_validated,
            duration_ms,
        ),
    }
}

impl ValidatorMetrics {
    /// Metrics of a validator that has not attested yet.
    pub fn new() -> (metrics: ValidatorMetrics)
        ensures
            metrics == fresh_metrics(),
    {
        ValidatorMetrics {
            operations_validated: 0,
            successful_validations: 0,
            failed_validations: 0,
            avg_validation_time_ms: 0,
        }
    }

    /// Counts one more attestation that took `duration_ms`.
    pub fn record(&mut self, succeeded: bool, duration_ms: u32)
        ensures
            *final(self) == metrics_after_vote(*old(self), succeeded, duration_ms),
    {
        let count: u64 = self.operations_validated;
        assert(self.avg_validation_time_ms as int * count as int <= u32::MAX * u64::MAX)
            by (nonlinear_arith)
            requires
                0 <= self.avg_validation_time_ms as int <= u32::MAX,
                0 <= count as int <= u64::MAX,
        ;
        let total: u128 = self.avg_validation_time_ms as u128 * count as u128
            + duration_ms as u128;
        let mean: u128 = total / (count as u128 + 1);
        proof {
            let m = self.avg_validation_time_ms as int;
            let n = count as int;
            let d = duration_ms as int;
            assert((m * n + d) / (n + 1) <= u32::MAX) by (nonlinear_arith)
                requires
                    0 <= m <= u32::MAX,
                    0 <= d <= u32::MAX,
                    0 <= n,
            ;
            assert(0 <= (m * n + d) / (n + 1)) by (nonlinear_arith)
                requires
                    0 <= m,
                    0 <= d,
                    0 <= n,
            ;
        }
        self.avg_validation_time_ms = mean as u32;
        self.operations_validated = if count < u64::MAX {
            count + 1
        } else {
            count
        };
        if succeeded {
            if self.successful_validations < u64::MAX {
                self.successful_validations = self.successful_validations + 1;
            }
        } else {
            if self.failed_validations < u64::MAX {
                self.failed_validations = self.failed_validations + 1;
            }
        }
    }
}

/// The views of a list of validator records.
pub open spec fn validator_views(states: Seq<ValidatorState>) -> Seq<ValidatorStateView> {
    Seq::new(states.len(), |i: int| states[i]@)
}

/// No account occurs twice.
pub open spec fn distinct_accounts(validators: Seq<ValidatorStateView>) -> bool {
    forall|i: int, j: int|
        0 <= i < j < validators.len() ==> validators[i].account != validators[j].account
}

/// `account` has a record.
pub open spec fn is_registered(validators: Seq<ValidatorStateView>, account: AccountId) -> bool {
    exists|i: int| 0 <= i < validators.len() && validators[i].account == account
}

/// Position of the record of `account`, which must have one.
pub open spec fn validator_index(validators: Seq<ValidatorStateView>, account: AccountId) -> int {
    choose|i: int| 0 <= i < validators.len() && validators[i].account == account
}

/// `account` has a record, and its status is `Active`.
pub open spec fn is_active(validators: Seq<ValidatorStateView>, account: AccountId) -> bool {
    is_registered(validators, account) && validators[validator_index(
        validators,
        account,
    )].status is Active
}

/// Number of records whose status is `Active`.
pub open spec fn active_count(validators: Seq<ValidatorStateView>) -> nat
    decreases validators.len(),
{
    if validators.len() == 0 {
        0
    } else {
        active_count(validators.drop_last()) + if validators.last().status is Active {
            1nat
        } else {
            0nat
        }
    }
}

/// The record of a validator that registers at height `now`.
pub open spec fn new_validator(
    account: AccountId,
    stake: Balance,
    public_key: Seq<u8>,
    now: BlockNumber,
) -> ValidatorStateView {
    ValidatorStateView {
        account,
        stake,
        status: ValidatorStatus::Active,
        quantum_pubkey: public_key,
        metrics: fresh_metrics(),
        last_update: now,
    }
}

/// The registry of validators, in order of registration.
pub struct ValidatorRegistry {
    validators: Vec<ValidatorState>,
    min_stake: Balance,
    max_key_len: usize,
}

/// Mathematical content of a [`ValidatorRegistry`].
pub ghost struct ValidatorRegistryView {
    /// The records, in order of registration.
    pub validators: Seq<ValidatorStateView>,
    /// Least stake that registers.
    pub min_stake: Balance,
    /// Greatest length of a public key that registers.
    pub max_key_len: usize,
}

/// Why `register` refuses, if it does. The checks are made in this order.
pub open spec fn register_refusal(
    registry: ValidatorRegistryView,
    account: AccountId,
    stake: Balance,
    key_len: nat,
) -> Option<Error> {
    if is_registered(registry.validators, account) {
        Some(Error::ValidatorAlreadyRegistered)
    } else if stake < registry.min_stake {
        Some(Error::InsufficientStake)
    } else if key_len > registry.max_key_len {
        Some(Error::QuantumStateTooLarge)
    } else {
        None
    }
}

/// Why `record_vote` refuses, if it does.
pub open spec fn vote_refusal(validators: Seq<ValidatorStateView>, account: AccountId) -> Option<
    Error,
> {
    if !is_registered(validators, account) {
        Some(Error::ValidatorNotFound)
    } else if !is_active(validators, account) {
        Some(Error::ValidatorNotActive)
    } else {
        None
    }
}

/// The records after the status of `account` was set at height `now`.
pub open spec fn with_status(
    validators: Seq<ValidatorStateView>,
    account: AccountId,
    status: ValidatorStatus,
    now: BlockNumber,
) -> Seq<ValidatorStateView> {
    let i = validator_index(validators, account);
    validators.update(
        i,
        ValidatorStateView { status, last_update: now, ..validators[i] },
    )
}

/// The records after `account` attested at height `now`.
pub open spec fn with_vote(
    validators: Seq<ValidatorStateView>,
    account: AccountId,
    succeeded: bool,
    duration_ms: u32,
    now: BlockNumber,
) -> Seq<ValidatorStateView> {
    let i = validator_index(validators, account);
    validators.update(
        i,
        ValidatorStateView {
            metrics: metrics_after_vote(validators[i].metrics, succeeded, duration_ms),
            last_update: now,
            ..validators[i]
        },
    )
}

/// Registering `account` at height `now`.
pub open spec fn register_step(
    registry: ValidatorRegistryView,
    account: AccountId,
    stake: Balance,
    public_key: Seq<u8>,
    now: BlockNumber,
) -> (ValidatorRegistryView, Result<(), Error>) {
    match register_refusal(registry, account, stake, public_key.len()) {
        Some(e) => (registry, Err(e)),
        None => (
            ValidatorRegistryView {
                validators: registry.validators.push(
                    new_validator(account, stake, public_key, now),
                ),
                ..registry
            },
            Ok(()),
        ),
    }
}

/// Removing `account`.
pub open spec fn remove_step(registry: ValidatorRegistryView, account: AccountId) -> (
    ValidatorRegistryView,
    Result<(), Error>,
) {
    if is_registered(registry.validators, account) {
        (
            ValidatorRegistryView {
                validators: registry.validators.remove(
                    validator_index(registry.validators, account),
                ),
                ..registry
            },
            Ok(()),
        )
    } else {
        (registry, Err(Error::ValidatorNotFound))
    }
}

/// Setting the status of `account` at height `now`.
pub open spec fn set_status_step(
    registry: ValidatorRegistryView,
    account: AccountId,
    status: ValidatorStatus,
    now: BlockNumber,
) -> (ValidatorRegistryView, Result<(), Error>) {
    if is_registered(registry.validators, account) {
        (
            ValidatorRegistryView {
                validators: with_status(registry.validators, account, status, now),
                ..registry
            },
            Ok(()),
        )
    } else {
        (registry, Err(Error::ValidatorNotFound))
    }
}

/// Counting an attestation of `account`, made at height `now`.
pub open spec fn vote_step(
    registry: ValidatorRegistryView,
    account: AccountId,
    succeeded: bool,
    duration_ms: u32,
    now: BlockNumber,
) -> (ValidatorRegistryView, Result<(), Error>) {
    match vote_refusal(registry.validators, account) {
        Some(e) => (registry, Err(e)),
        None => (
            ValidatorRegistryView {
                validators: with_vote(registry.validators, account, succeeded, duration_ms, now),
                ..registry
            },
            Ok(()),
        ),
    }
}

/// In a list without repeated accounts, the record of an account is where
/// one finds it.
pub proof fn lemma_validator_index(
    validators: Seq<ValidatorStateView>,
    account: AccountId,
    at: int,
)
    requires
        distinct_accounts(validators),
        0 <= at < validators.len(),
        validators[at].account == account,
    ensures
        is_registered(validators, account),
        validator_index(validators, account) == at,
{
    let i = validator_index(validators, account);
    if i < at {
        assert(validators[i].account != validators[at].account);
    } else if at < i {
        assert(validators[at].account != validators[i].account);
    }
}

impl View for ValidatorRegistry {
    type V = ValidatorRegistryView;

    closed spec fn view(&self) -> ValidatorRegistryView {
        ValidatorRegistryView {
            validators: validator_views(self.validators@),
            min_stake: self.min_stake,
            max_key_len: self.max_key_len,
        }
    }
}

impl ValidatorRegistry {
    /// No account has two records.
    pub open spec fn wf(&self) -> bool {
        distinct_accounts(self@.validators)
    }

    /// An empty registry that admits stakes of at least `min_stake` and
    /// public keys of at most `max_key_len` bytes.
    pub fn new(min_stake: Balance, max_key_len: usize) -> (registry: Self)
        ensures
            registry.wf(),
            registry@ == (ValidatorRegistryView {
                validators: Seq::empty(),
                min_stake,
                max_key_len,
            }),
    {
        let registry = ValidatorRegistry { validators: Vec::new(), min_stake, max_key_len };
        assert(registry@.validators =~= Seq::empty());
        registry
    }

    fn find(&self, account: AccountId) -> (at: Option<usize>)
        requires
            self.wf(),
        ensures
            at is Some <==> is_registered(self@.validators, account),
            at matches Some(i) ==> i < self.validators@.len() && i == validator_index(
                self@.validators,
                account,
            ) && self.validators@[i as int].account == account,
    {
        let mut i: usize = 0;
        while i < self.validators.len()
            invariant
                self.wf(),
                i <= self.validators@.len(),
                forall|k: int| 0 <= k < i ==> self.validators@[k].account != account,
            decreases self.validators@.len() - i,
        {
            if self.validators[i].account == account {
                proof {
                    lemma_validator_index(self@.validators, account, i as int);
                }
                return Some(i);
            }
            i += 1;
        }
        assert(!is_registered(self@.validators, account)) by {
            if is_registered(self@.validators, account) {
                let k = validator_index(self@.validators, account);
                assert(self.validators@[k].account != account);
            }
        }
        None
    }

    /// Whether `account` is a validator.
    pub fn is_validator(&self, account: AccountId) -> (registered: bool)
        requires
            self.wf(),
        ensures
            registered == is_registered(self@.validators, account),
    {
        self.find(account).is_some()
    }

    /// Whether `account` is a validator in good standing.
    pub fn is_active_validator(&self, account: AccountId) -> (active: bool)
        requires
            self.wf(),
        ensures
            active == is_active(self@.validators, account),
    {
        match self.find(account) {
            Some(i) => self.validators[i].status == ValidatorStatus::Active,
            None => false,
        }
    }

    /// The record of `account`, if it has one.
    pub fn get(&self, account: AccountId) -> (state: Option<&ValidatorState>)
        requires
            self.wf(),
        ensures
            state is Some <==> is_registered(self@.validators, account),
            state matches Some(s) ==> s@ == self@.validators[validator_index(
                self@.validators,
                account,
            )],
    {
        match self.find(account) {
            Some(i) => Some(&self.validators[i]),
            None => None,
        }
    }

    /// Number of validators whose status is `Active`.
    pub fn count_active(&self) -> (count: usize)
        ensures
            count == active_count(self@.validators),
    {
        let mut count: usize = 0;
        let mut i: usize = 0;
        let ghost views = self@.validators;
        assert(views.take(0) =~= Seq::empty());
        while i < self.validators.len()
            invariant
                i <= self.validators@.len(),
                views == validator_views(self.validators@),
                count == active_count(views.take(i as int)),
                count <= i,
            decreases self.validators@.len() - i,
        {
            proof {
                assert(views.take(i + 1).drop_last() =~= views.take(i as int));
                assert(views.take(i + 1).last() == views[i as int]);
            }
            if self.validators[i].status == ValidatorStatus::Active {
                count += 1;
            }
            i += 1;
        }
        assert(views.take(i as int) =~= views);
        count
    }

    /// Registers `account` as an active validator.
    pub fn register(
        &mut self,
        account: AccountId,
        stake: Balance,
        public_key: Vec<u8>,
        now: BlockNumber,
    ) -> (result: Result<(), Error>)
        requires
            old(self).wf(),
        ensures
            final(self).wf(),
            (final(self)@, result) == register_step(old(self)@, account, stake, public_key@, now),
    {
        if self.find(account).is_some() {
            return Err(Error::ValidatorAlreadyRegistered);
        }
        if stake < self.min_stake {
            return Err(Error::InsufficientStake);
        }
        if public_key.len() > self.max_key_len {
            return Err(Error::QuantumStateTooLarge);
        }
        let state = ValidatorState {
            account,
            stake,
            status: ValidatorStatus::Active,
            quantum_pubkey: public_key,
            metrics: ValidatorMetrics::new(),
            last_update: now,
        };
        self.validators.push(state);
        proof {
            assert(self@.validators =~= old(self)@.validators.push(
                new_validator(account, stake, public_key@, now),
            ));
        }
        Ok(())
    }

    /// Removes the record of `account`.
    pub fn remove(&mut self, account: AccountId) -> (result: Result<(), Error>)
        requires
            old(self).wf(),
        ensures
            final(self).wf(),
            (final(self)@, result) == remove_step(old(self)@, account),
    {
        match self.find(account) {
            None => Err(Error::ValidatorNotFound),
            Some(i) => {
                self.validators.remove(i);
                proof {
                    assert(self@.validators =~= old(self)@.validators.remove(i as int));
                }
                Ok(())
            },
        }
    }

    /// Sets the status of `account`.
    pub fn set_status(&mut self, account: AccountId, status: ValidatorStatus, now: BlockNumber) -> (result:
        Result<(), Error>)
        requires
            old(self).wf(),
        ensures
            final(self).wf(),
            (final(self)@, result) == set_status_step(old(self)@, account, status, now),
    {
        match self.find(account) {
            None => Err(Error::ValidatorNotFound),
            Some(i) => {
                self.validators[i].status = status;
                self.validators[i].last_update = now;
                proof {
                    assert(self@.validators =~= with_status(
                        old(self)@.validators,
                        account,
                        status,
                        now,
                    ));
                }
                Ok(())
            },
        }
    }

    /// Counts an attestation of `account` in its metrics. Only an active
    /// validator may attest.
    pub fn record_vote(
        &mut self,
        account: AccountId,
        succeeded: bool,
        duration_ms: u32,
        now: BlockNumber,
    ) -> (result: Result<(), Error>)
        requires
            old(self).wf(),
        ensures
            final(self).wf(),
            (final(self)@, result) == vote_step(old(self)@, account, succeeded, duration_ms, now),
    {
        match self.find(account) {
            None => Err(Error::ValidatorNotFound),
            Some(i) => {
                if self.validators[i].status != ValidatorStatus::Active {
                    return Err(Error::ValidatorNotActive);
                }
                self.validators[i].metrics.record(succeeded, duration_ms);
                self.validators[i].last_update = now;
                proof {
                    assert(self@.validators =~= with_vote(
                        old(self)@.validators,
                        account,
                        succeeded,
                        duration_ms,
                        now,
                    ));
                }
                Ok(())
            },
        }
    }
}

} // verus!
