//! The validation session of one operation: the attestations of its
//! validators, their tally against the quorum, and the outcome.

use vstd::prelude::*;
use vstd::arithmetic::div_mod::lemma_fundamental_div_mod;
use vstd::arithmetic::div_mod::lemma_mod_bound;
use crate::types::AccountId;
use crate::types::BlockNumber;
use crate::types::Error;
use crate::types::ValidationStatus;
use crate::types::Vote;
use crate::hashing::MerkleHash;
use crate::hashing::digest_bytes;
use crate::hashing::copy_bytes;
use crate::merkle::JamProof;
use crate::merkle::JamProofView;
use crate::merkle::proof_verifies;
use crate::merkle::verify_jam_proof;

verus! {

/// One validator's attestation to one operation.
#[derive(Debug, PartialEq, Eq)]
pub struct Attestation {
    /// Who attests.
    pub validator: AccountId,
    /// The verdict.
    pub vote: Vote,
    /// The inclusion proof that justifies the verdict.
    pub proof: JamProof,
    /// Height at which the attestation was cast.
    pub timestamp: BlockNumber,
    /// Whether the attestation counts toward the quorum.
    pub eligible: bool,
}

/// Mathematical content of an [`Attestation`].
pub ghost struct AttestationView {
    pub validator: AccountId,
    pub vote: Vote,
    pub proof: JamProofView,
    pub timestamp: BlockNumber,
    pub eligible: bool,
}

impl View for Attestation {
    type V = AttestationView;

    open spec fn view(&self) -> AttestationView {
        AttestationView {
            validator: self.validator,
            vote: self.vote,
            proof: self.proof@,
            timestamp: self.timestamp,
            eligible: self.eligible,
        }
    }
}

impl Clone for Attestation {
    fn clone(&self) -> (copy: Self)
        ensures
            copy@ == self@,
    {
        Attestation {
            validator: self.validator,
            vote: self.vote,
            proof: self.proof.clone(),
            timestamp: self.timestamp,
            eligible: self.eligible,
        }
    }
}

/// Result of a validation.
#[derive(Debug, PartialEq, Eq)]
pub struct ValidationResult {
    /// Identifier of the operation.
    pub operation_hash: MerkleHash,
    /// Validators whose attestations were counted, in the order they came.
    pub validators: Vec<AccountId>,
    /// Status of the validation.
    pub status: ValidationStatus,
    /// On success, the root that the counted proofs verify against.
    pub result_data: Option<Vec<u8>>,
    /// Height at which the validation completed.
    pub completed_at: BlockNumber,
}

/// Mathematical content of a [`ValidationResult`].
pub ghost struct ValidationResultView {
    pub operation_hash: MerkleHash,
    pub validators: Seq<AccountId>,
    pub status: ValidationStatus,
    pub result_data: Option<Seq<u8>>,
    pub completed_at: BlockNumber,
}

impl View for ValidationResult {
    type V = ValidationResultView;

    open spec fn view(&self) -> ValidationResultView {
        ValidationResultView {
            operation_hash: self.operation_hash,
            validators: self.validators@,
            status: self.status,
            result_data: match self.result_data {
                Some(bytes) => Some(bytes@),
                None => None,
            },
            completed_at: self.completed_at,
        }
    }
}

impl Clone for ValidationResult {
    fn clone(&self) -> (copy: Self)
        ensures
            copy@ == self@,
    {
        let mut validators: Vec<AccountId> = Vec::new();
        let mut i: usize = 0;
        while i < self.validators.len()
            invariant
                i <= self.validators@.len(),
                validators@ == self.validators@.subrange(0, i as int),
            decreases self.validators@.len() - i,
        {
            validators.push(self.validators[i]);
            i += 1;
        }
        assert(self.validators@.subrange(0, i as int) == self.validators@);
        let result_data: Option<Vec<u8>> = match &self.result_data {
            Some(bytes) => Some(copy_bytes(bytes)),
            None => None,
        };
        ValidationResult {
            operation_hash: self.operation_hash,
            validators,
            status: self.status,
            result_data,
            completed_at: self.completed_at,
        }
    }
}

/// The views of a list of attestations.
pub open spec fn attestation_views(attestations: Seq<Attestation>) -> Seq<AttestationView> {
    Seq::new(attestations.len(), |i: int| attestations[i]@)
}

/// `validator` has attested.
pub open spec fn has_attested(attestations: Seq<AttestationView>, validator: AccountId) -> bool {
    exists|i: int| 0 <= i < attestations.len() && attestations[i].validator == validator
}

/// No validator has attested twice.
pub open spec fn distinct_validators(attestations: Seq<AttestationView>) -> bool {
    forall|i: int, j: int|
        0 <= i < j < attestations.len() ==> attestations[i].validator
            != attestations[j].validator
}

/// Number of eligible attestations with verdict `vote`.
pub open spec fn votes_for(attestations: Seq<AttestationView>, vote: Vote) -> nat
    decreases attestations.len(),
{
    if attestations.len() == 0 {
        0
    } else {
        let last = attestations.last();
        votes_for(attestations.drop_last(), vote) + if last.eligible && last.vote == vote {
            1nat
        } else {
            0nat
        }
    }
}

/// Number of eligible attestations.
pub open spec fn tally(attestations: Seq<AttestationView>) -> nat {
    votes_for(attestations, Vote::Approve) + votes_for(attestations, Vote::Reject)
}

/// The validators whose attestations are eligible, in the order they came.
pub open spec fn participants(attestations: Seq<AttestationView>) -> Seq<AccountId>
    decreases attestations.len(),
{
    if attestations.len() == 0 {
        Seq::empty()
    } else {
        let last = attestations.last();
        let before = participants(attestations.drop_last());
        if last.eligible {
            before.push(last.validator)
        } else {
            before
        }
    }
}

/// An attestation counts when its validator is active and its proof
/// verifies against the root the operation was submitted under.
pub open spec fn counts(active: bool, proof: JamProofView, root: MerkleHash) -> bool {
    active && proof_verifies(proof, root)
}

/// The quorum: the least number of votes, at least one, that is no less
/// than `numerator / denominator` of `active`.
pub open spec fn quorum_threshold(active: nat, numerator: nat, denominator: nat) -> nat {
    let needed = (active * numerator + denominator - 1) / (denominator as int);
    if needed < 1 {
        1
    } else {
        needed as nat
    }
}

/// Outcome of a session at the given threshold: none while no vote counts
/// or the tally is below the threshold; from there on success when
/// approvals outnumber rejections, failure otherwise.
pub open spec fn session_outcome(attestations: Seq<AttestationView>, threshold: nat) -> Option<
    ValidationStatus,
> {
    if tally(attestations) == 0 || tally(attestations) < threshold {
        None
    } else if votes_for(attestations, Vote::Approve) > votes_for(attestations, Vote::Reject) {
        Some(ValidationStatus::Success)
    } else {
        Some(ValidationStatus::Failed)
    }
}

/// Mathematical content of a [`ValidationSession`].
pub ghost struct SessionView {
    /// Identifier of the operation.
    pub operation_id: MerkleHash,
    /// Root of the operation set at the time of submission.
    pub root: MerkleHash,
    /// The attestations, in the order they came.
    pub attestations: Seq<AttestationView>,
}

/// No validator has attested twice, and every attestation that counts
/// carries a proof that verifies against the session's root.
pub open spec fn session_wf(session: SessionView) -> bool {
    &&& distinct_validators(session.attestations)
    &&& forall|i: int|
        0 <= i < session.attestations.len() && session.attestations[i].eligible
            ==> proof_verifies(#[trigger] session.attestations[i].proof, session.root)
}

/// The session after one more attestation.
pub open spec fn with_attestation(session: SessionView, attestation: AttestationView) -> SessionView {
    SessionView { attestations: session.attestations.push(attestation), ..session }
}

/// Why `attest` refuses, if it does.
pub open spec fn attest_refusal(
    session: SessionView,
    validator: AccountId,
    counted: bool,
    cap: nat,
) -> Option<Error> {
    if has_attested(session.attestations, validator) {
        Some(Error::DuplicateVote)
    } else if counted && tally(session.attestations) >= cap {
        Some(Error::TooManyValidators)
    } else {
        None
    }
}

/// The result that a session yields at height `now`, if it has a quorum.
pub open spec fn session_result(session: SessionView, threshold: nat, now: BlockNumber) -> Option<
    ValidationResultView,
> {
    match session_outcome(session.attestations, threshold) {
        None => None,
        Some(status) => Some(
            ValidationResultView {
                operation_hash: session.operation_id,
                validators: participants(session.attestations),
                status,
                result_data: if status is Success {
                    Some(session.root@)
                } else {
                    None
                },
                completed_at: now,
            },
        ),
    }
}

/// The fraction of the active validators whose eligible votes make a quorum.
#[derive(Clone, Copy, PartialEq, Eq, Debug, Structural)]
pub struct QuorumRule {
    numerator: u64,
    denominator: u64,
}

impl QuorumRule {
    /// The numerator of the fraction.
    pub closed spec fn numerator(&self) -> nat {
        self.numerator as nat
    }

    /// The denominator of the fraction.
    pub closed spec fn denominator(&self) -> nat {
        self.denominator as nat
    }

    /// The fraction is positive and at most one.
    #[verifier::type_invariant]
    pub open spec fn wf(&self) -> bool {
        0 < self.numerator() <= self.denominator()
    }

    /// The rule `numerator / denominator`, if that is a fraction in `(0, 1]`.
    pub fn new(numerator: u64, denominator: u64) -> (rule: Option<QuorumRule>)
        ensures
            rule is Some <==> 0 < numerator <= denominator,
            rule matches Some(r) ==> r.wf() && r.numerator() == numerator && r.denominator()
                == denominator,
    {
        if 0 < numerator && numerator <= denominator {
            Some(QuorumRule { numerator, denominator })
        } else {
            None
        }
    }

    /// The rule of two thirds.
    pub fn two_thirds() -> (rule: QuorumRule)
        ensures
            rule.wf(),
            rule.numerator() == 2,
            rule.denominator() == 3,
    {
        QuorumRule { numerator: 2, denominator: 3 }
    }

    /// The quorum among `active` validators.
    pub fn threshold(&self, active: usize) -> (needed: usize)
        ensures
            needed == quorum_threshold(active as nat, self.numerator(), self.denominator()),
    {
        proof {
            use_type_invariant(self);
        }
        let a: u128 = active as u128;
        let n: u128 = self.numerator as u128;
        let d: u128 = self.denominator as u128;
        assert(a * n <= usize::MAX * u64::MAX) by (nonlinear_arith)
            requires
                0 <= a <= usize::MAX,
                0 <= n <= u64::MAX,
        ;
        let needed: u128 = (a * n + d - 1) / d;
        assert(needed <= a) by (nonlinear_arith)
            requires
                needed as int == (a as int * n as int + d as int - 1) / (d as int),
                0 < n <= d,
                0 <= a,
        ;
        if needed < 1 {
            1
        } else {
            needed as usize
        }
    }
}

/// The quorum is enough, and one vote fewer is not, unless one vote is all
/// it asks for.
pub proof fn lemma_quorum_is_least(active: nat, numerator: nat, denominator: nat)
    requires
        0 < numerator <= denominator,
    ensures
        quorum_threshold(active, numerator, denominator) >= 1,
        quorum_threshold(active, numerator, denominator) * denominator >= active * numerator,
        quorum_threshold(active, numerator, denominator) == 1 || (quorum_threshold(
            active,
            numerator,
            denominator,
        ) - 1) * denominator < active * numerator,
        quorum_threshold(active, numerator, denominator) <= active || active == 0,
{
    let x = (active * numerator + denominator - 1) as int;
    let d = denominator as int;
    let q = x / d;
    assert(0 <= active * numerator) by (nonlinear_arith);
    lemma_fundamental_div_mod(x, d);
    lemma_mod_bound(x, d);
    assert(x == d * q + x % d);
    assert(q * d == d * q) by (nonlinear_arith);
    assert((q - 1) * d == d * q - d) by (nonlinear_arith);
    if active > 0 {
        assert(active * numerator >= 1) by (nonlinear_arith)
            requires
                active >= 1,
                numerator >= 1,
        ;
        assert(active * numerator <= active * denominator) by (nonlinear_arith)
            requires
                numerator <= denominator,
        ;
        assert(q <= active) by (nonlinear_arith)
            requires
                x == d * q + x % d,
                0 <= x % d < d,
                x <= active * d + d - 1,
                d > 0,
        ;
        assert(q >= 1) by (nonlinear_arith)
            requires
                x == d * q + x % d,
                0 <= x % d < d,
                x >= d,
                d > 0,
        ;
    }
}

/// The attestations to one operation.
pub struct ValidationSession {
    operation_id: MerkleHash,
    root: MerkleHash,
    attestations: Vec<Attestation>,
}

impl View for ValidationSession {
    type V = SessionView;

    closed spec fn view(&self) -> SessionView {
        SessionView {
            operation_id: self.operation_id,
            root: self.root,
            attestations: attestation_views(self.attestations@),
        }
    }
}

impl ValidationSession {
    /// The session is well formed: see [`session_wf`].
    pub open spec fn wf(&self) -> bool {
        session_wf(self@)
    }

    /// An empty session for the operation `operation_id`, submitted under
    /// `root`.
    pub fn new(operation_id: MerkleHash, root: MerkleHash) -> (session: Self)
        ensures
            session.wf(),
            session@ == (SessionView { operation_id, root, attestations: Seq::empty() }),
    {
        let session = ValidationSession { operation_id, root, attestations: Vec::new() };
        assert(session@.attestations =~= Seq::empty());
        session
    }

    /// Whether `validator` has attested.
    pub fn has_voted(&self, validator: AccountId) -> (voted: bool)
        ensures
            voted == has_attested(self@.attestations, validator),
    {
        let mut i: usize = 0;
        while i < self.attestations.len()
            invariant
                i <= self.attestations@.len(),
                forall|k: int| 0 <= k < i ==> self.attestations@[k].validator != validator,
            decreases self.attestations@.len() - i,
        {
            if self.attestations[i].validator == validator {
                assert(self@.attestations[i as int].validator == validator);
                return true;
            }
            i += 1;
        }
        assert(!has_attested(self@.attestations, validator)) by {
            if has_attested(self@.attestations, validator) {
                let k = choose|k: int|
                    0 <= k < self@.attestations.len() && self@.attestations[k].validator
                        == validator;
                assert(self.attestations@[k].validator != validator);
            }
        }
        false
    }

    /// Number of eligible attestations with verdict `vote`.
    pub fn count_votes(&self, vote: Vote) -> (count: usize)
        ensures
            count == votes_for(self@.attestations, vote),
    {
        let mut count: usize = 0;
        let mut i: usize = 0;
        let ghost views = self@.attestations;
        assert(views.take(0) =~= Seq::empty());
        while i < self.attestations.len()
            invariant
                i <= self.attestations@.len(),
                views == attestation_views(self.attestations@),
                count == votes_for(views.take(i as int), vote),
                count <= i,
            decreases self.attestations@.len() - i,
        {
            proof {
                assert(views.take(i + 1).drop_last() =~= views.take(i as int));
                assert(views.take(i + 1).last() == views[i as int]);
            }
            if self.attestations[i].eligible && self.attestations[i].vote == vote {
                count += 1;
            }
            i += 1;
        }
        assert(views.take(i as int) =~= views);
        count
    }

    /// The validators whose attestations are eligible, in the order they
    /// came.
    pub fn counted_validators(&self) -> (validators: Vec<AccountId>)
        ensures
            validators@ == participants(self@.attestations),
    {
        let mut validators: Vec<AccountId> = Vec::new();
        let mut i: usize = 0;
        let ghost views = self@.attestations;
        assert(views.take(0) =~= Seq::empty());
        while i < self.attestations.len()
            invariant
                i <= self.attestations@.len(),
                views == attestation_views(self.attestations@),
                validators@ == participants(views.take(i as int)),
            decreases self.attestations@.len() - i,
        {
            proof {
                assert(views.take(i + 1).drop_last() =~= views.take(i as int));
                assert(views.take(i + 1).last() == views[i as int]);
            }
            if self.attestations[i].eligible {
                validators.push(self.attestations[i].validator);
            }
            i += 1;
        }
        assert(views.take(i as int) =~= views);
        validators
    }

    /// Records the attestation of `validator`, cast at height `now`.
    ///
    /// The attestation counts when the validator is `active` and `proof`
    /// verifies against the session's root; otherwise it is kept for audit
    /// only. Returns whether it counts. A second attestation of the same
    /// validator is refused, and so is one that would count beyond `cap`
    /// counted attestations.
    pub fn attest(
        &mut self,
        validator: AccountId,
        active: bool,
        vote: Vote,
        proof: JamProof,
        now: BlockNumber,
        cap: usize,
    ) -> (result: Result<bool, Error>)
        requires
            old(self).wf(),
        ensures
            final(self).wf(),
            result == match attest_refusal(
                old(self)@,
                validator,
                counts(active, proof@, old(self)@.root),
                cap as nat,
            ) {
                Some(e) => Err::<bool, Error>(e),
                None => Ok(counts(active, proof@, old(self)@.root)),
            },
            final(self)@ == if result is Ok {
                with_attestation(
                    old(self)@,
                    AttestationView {
                        validator,
                        vote,
                        proof: proof@,
                        timestamp: now,
                        eligible: counts(active, proof@, old(self)@.root),
                    },
                )
            } else {
                old(self)@
            },
    {
        if self.has_voted(validator) {
            return Err(Error::DuplicateVote);
        }
        let eligible: bool = active && verify_jam_proof(&proof, self.root);
        if eligible {
            let approvals: usize = self.count_votes(Vote::Approve);
            let rejections: usize = self.count_votes(Vote::Reject);
            let made: usize = self.attestations.len();
            proof {
                lemma_tally_bound(self@.attestations);
                assert(approvals + rejections <= made);
            }
            if approvals + rejections >= cap {
                return Err(Error::TooManyValidators);
            }
        }
        let ghost added = AttestationView {
            validator,
            vote,
            proof: proof@,
            timestamp: now,
            eligible,
        };
        self.attestations.push(Attestation { validator, vote, proof, timestamp: now, eligible });
        proof {
            assert(self@.attestations =~= old(self)@.attestations.push(added));
        }
        Ok(eligible)
    }

    /// Outcome of the session at `threshold`, if the tally has reached it.
    pub fn outcome(&self, threshold: usize) -> (status: Option<ValidationStatus>)
        ensures
            status == session_outcome(self@.attestations, threshold as nat),
    {
        let approvals: usize = self.count_votes(Vote::Approve);
        let rejections: usize = self.count_votes(Vote::Reject);
        let made: usize = self.attestations.len();
        proof {
            lemma_tally_bound(self@.attestations);
            assert(approvals + rejections <= made);
        }
        if approvals + rejections == 0 || approvals + rejections < threshold {
            None
        } else if approvals > rejections {
            Some(ValidationStatus::Success)
        } else {
            Some(ValidationStatus::Failed)
        }
    }

    /// The result of the session at height `now`, if the tally has reached
    /// `threshold`.
    pub fn conclude(&self, threshold: usize, now: BlockNumber) -> (result: Option<ValidationResult>)
        ensures
            match result {
                Some(r) => session_result(self@, threshold as nat, now) == Some(r@),
                None => session_result(self@, threshold as nat, now) is None,
            },
    {
        match self.outcome(threshold) {
            None => None,
            Some(status) => {
                let result_data: Option<Vec<u8>> = if status == ValidationStatus::Success {
                    Some(digest_bytes(&self.root))
                } else {
                    None
                };
                Some(
                    ValidationResult {
                        operation_hash: self.operation_id,
                        validators: self.counted_validators(),
                        status,
                        result_data,
                        completed_at: now,
                    },
                )
            },
        }
    }

    /// Identifier of the operation.
    pub fn operation_id(&self) -> (id: MerkleHash)
        ensures
            id == self@.operation_id,
    {
        self.operation_id
    }

    /// Root of the operation set at the time of submission.
    pub fn root(&self) -> (root: MerkleHash)
        ensures
            root == self@.root,
    {
        self.root
    }

    /// The attestations, in the order they came.
    pub fn attestations(&self) -> (list: &Vec<Attestation>)
        ensures
            attestation_views(list@) == self@.attestations,
    {
        &self.attestations
    }
}

/// One more attestation adds one to the tally if it is eligible, nothing
/// otherwise.
pub proof fn lemma_tally_push(attestations: Seq<AttestationView>, added: AttestationView)
    ensures
        tally(attestations.push(added)) == tally(attestations) + if added.eligible {
            1nat
        } else {
            0nat
        },
{
    assert(attestations.push(added).drop_last() =~= attestations);
}

/// The counted validators are validators that have attested, each named
/// once.
pub proof fn lemma_participants_distinct(attestations: Seq<AttestationView>)
    requires
        distinct_validators(attestations),
    ensures
        participants(attestations).no_duplicates(),
        forall|v: AccountId| #[trigger]
            participants(attestations).contains(v) ==> has_attested(attestations, v),
    decreases attestations.len(),
{
    if attestations.len() > 0 {
        let before = attestations.drop_last();
        let last = attestations.last();
        lemma_participants_distinct(before);
        assert forall|v: AccountId| #[trigger]
            participants(attestations).contains(v) implies has_attested(attestations, v) by {
            if participants(before).contains(v) {
                let k = choose|k: int| 0 <= k < before.len() && before[k].validator == v;
                assert(attestations[k].validator == v);
            } else {
                assert(v == last.validator);
                assert(attestations[attestations.len() - 1].validator == v);
            }
        }
        if last.eligible {
            if participants(before).contains(last.validator) {
                let k = choose|k: int|
                    0 <= k < before.len() && before[k].validator == last.validator;
                assert(attestations[k].validator != attestations[attestations.len()
                    - 1].validator);
            }
            assert(participants(attestations).no_duplicates()) by {
                let p = participants(attestations);
                assert forall|i: int, j: int| 0 <= i < p.len() && 0 <= j < p.len() && i != j implies p[i] != p[j] by {
                    if i < p.len() - 1 && j < p.len() - 1 {
                        assert(participants(before)[i] != participants(before)[j]);
                    } else if i == p.len() - 1 {
                        assert(participants(before)[j] == p[j]);
                        assert(participants(before).contains(p[j]));
                    } else {
                        assert(participants(before)[i] == p[i]);
                        assert(participants(before).contains(p[i]));
                    }
                }
            }
        }
    }
}

/// No more attestations count than were made.
pub proof fn lemma_tally_bound(attestations: Seq<AttestationView>)
    ensures
        tally(attestations) <= attestations.len(),
        participants(attestations).len() == tally(attestations),
    decreases attestations.len(),
{
    if attestations.len() > 0 {
        lemma_tally_bound(attestations.drop_last());
    }
}

} // verus!
