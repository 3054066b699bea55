//! What holds of every operation over its whole life.

use vstd::prelude::*;
use crate::types::AccountId;
use crate::types::BlockNumber;
use crate::types::Error;
use crate::types::JamOperationStatus;
use crate::types::ValidationStatus;
use crate::types::Vote;
use crate::hashing::MerkleHash;
use crate::merkle::JamProofView;
use crate::operations::JamOperationView;
use crate::operations::OperationEntryView;
use crate::operations::attest_step;
use crate::operations::begin_step;
use crate::operations::entry_wf;
use crate::operations::finalize_step;
use crate::operations::has_operation;
use crate::operations::lemma_operation_index;
use crate::operations::operation_index;
use crate::operations::registry_wf;
use crate::operations::status_step;
use crate::operations::submit_step;
use crate::operations::touch_all;
use crate::operations::touched;
use crate::coordinator::CoordinatorView;
use crate::coordinator::cast_vote_step;
use crate::coordinator::coordinator_wf;
use crate::session::quorum_threshold;
use crate::session::session_result;
use crate::session::tally;
use crate::session::lemma_tally_bound;
use crate::session::lemma_participants_distinct;
use crate::session::has_attested;
use crate::validators::active_count;
use crate::validators::vote_step;
use crate::validators::is_active;
use crate::validators::is_registered;

verus! {

/// The entry of the operation `id`, which must be recorded.
pub open spec fn entry_of(entries: Seq<OperationEntryView>, id: MerkleHash) -> OperationEntryView {
    entries[operation_index(entries, id)]
}

/// The operation `id` is past its expiry at `now` without having been
/// finalized, or has been marked expired before.
pub open spec fn lapsed(entries: Seq<OperationEntryView>, id: MerkleHash, now: BlockNumber) -> bool {
    let operation = entry_of(entries, id).operation;
    operation.status is Expired || (now > operation.expires_at && (operation.status is Pending
        || operation.status is InProgress))
}

/// `after` is `before` with, at most, the operation `id` marked expired.
pub open spec fn only_expired(
    before: Seq<OperationEntryView>,
    after: Seq<OperationEntryView>,
    id: MerkleHash,
) -> bool {
    let i = operation_index(before, id);
    after == before.update(
        i,
        OperationEntryView {
            operation: JamOperationView {
                status: JamOperationStatus::Expired,
                ..before[i].operation
            },
            ..before[i]
        },
    )
}

/// Expiry is final. Of an operation that is past its expiry at `now` and
/// was not finalized in time, or that has been marked expired before, every
/// transition is refused with `OperationExpired`, and its status reads
/// `Expired`. Each of these calls leaves the operation marked expired, with
/// nothing else changed and no result written; so the same holds of every
/// call that follows, at whatever height.
pub proof fn lemma_expiry_is_final(
    entries: Seq<OperationEntryView>,
    id: MerkleHash,
    now: BlockNumber,
    validator: AccountId,
    active: bool,
    vote: Vote,
    proof: JamProofView,
    cap: nat,
    threshold: nat,
    later: BlockNumber,
)
    requires
        registry_wf(entries),
        has_operation(entries, id),
        lapsed(entries, id, now),
    ensures
        begin_step(entries, id, now).1 == Err::<(), Error>(Error::OperationExpired),
        attest_step(entries, id, validator, active, vote, proof, now, cap).1 == Err::<
            bool,
            Error,
        >(Error::OperationExpired),
        finalize_step(entries, id, threshold, now).1 == Err::<ValidationStatus, Error>(
            Error::OperationExpired,
        ),
        status_step(entries, id, now).1 == Ok::<JamOperationStatus, Error>(
            JamOperationStatus::Expired,
        ),
        only_expired(entries, begin_step(entries, id, now).0, id),
        only_expired(
            entries,
            attest_step(entries, id, validator, active, vote, proof, now, cap).0,
            id,
        ),
        only_expired(entries, finalize_step(entries, id, threshold, now).0, id),
        only_expired(entries, status_step(entries, id, now).0, id),
        entry_of(entries, id).result is None,
        registry_wf(status_step(entries, id, now).0),
        has_operation(status_step(entries, id, now).0, id),
        lapsed(status_step(entries, id, now).0, id, later),
{
    let i = operation_index(entries, id);
    let after = status_step(entries, id, now).0;
    assert(entry_wf(entries[i]));
    assert(after[i].operation.id == id);
    assert(registry_wf(after)) by {
        assert forall|k: int| 0 <= k < after.len() implies entry_wf(#[trigger] after[k]) by {
            assert(entry_wf(entries[k]));
        }
    }
    lemma_operation_index(after, id, i);
}

/// A vote on a lapsed operation is refused with `OperationExpired`. It
/// marks the operation expired and changes nothing else: no attestation is
/// recorded, no metrics move, no result is written and no event is emitted.
pub proof fn lemma_vote_on_lapsed_operation(
    c: CoordinatorView,
    validator: AccountId,
    id: MerkleHash,
    vote: Vote,
    proof: JamProofView,
    duration_ms: u32,
    now: BlockNumber,
)
    requires
        coordinator_wf(c),
        is_registered(c.validators.validators, validator),
        has_operation(c.operations, id),
        lapsed(c.operations, id, now),
    ensures
        cast_vote_step(c, validator, id, vote, proof, duration_ms, now).1 == Err::<(), Error>(
            Error::OperationExpired,
        ),
        only_expired(
            c.operations,
            cast_vote_step(c, validator, id, vote, proof, duration_ms, now).0.operations,
            id,
        ),
        cast_vote_step(c, validator, id, vote, proof, duration_ms, now).0 == (CoordinatorView {
            operations: cast_vote_step(c, validator, id, vote, proof, duration_ms, now).0.operations,
            ..c
        }),
{
    lemma_expiry_is_final(
        c.operations,
        id,
        now,
        validator,
        is_active(c.validators.validators, validator),
        vote,
        proof,
        c.max_validators_per_operation as nat,
        0,
        now,
    );
}

/// A finalized operation never changes. Once an operation is completed or
/// failed, no call touches its record: its status, its attestations and its
/// result stay as they are, and every transition is refused.
pub proof fn lemma_result_is_final(
    entries: Seq<OperationEntryView>,
    id: MerkleHash,
    now: BlockNumber,
    validator: AccountId,
    active: bool,
    vote: Vote,
    proof: JamProofView,
    cap: nat,
    threshold: nat,
)
    requires
        registry_wf(entries),
        has_operation(entries, id),
        entry_of(entries, id).result is Some,
    ensures
        begin_step(entries, id, now) == (entries, Err::<(), Error>(Error::InvalidTransition)),
        attest_step(entries, id, validator, active, vote, proof, now, cap) == (
            entries,
            Err::<bool, Error>(Error::InvalidTransition),
        ),
        finalize_step(entries, id, threshold, now) == (
            entries,
            Err::<ValidationStatus, Error>(Error::InvalidTransition),
        ),
        status_step(entries, id, now) == (
            entries,
            Ok::<JamOperationStatus, Error>(entry_of(entries, id).operation.status),
        ),
        touch_all(entries, now)[operation_index(entries, id)] == entry_of(entries, id),
{
    let i = operation_index(entries, id);
    assert(entry_wf(entries[i]));
    assert(touched(entries[i], now) == entries[i]);
    assert(entries.update(i, entries[i]) =~= entries);
}

/// A result is written only on a quorum. Where finalizing succeeds, the
/// operation was in progress and had no result, the tally of its eligible
/// votes has reached the threshold, and the result written is the one its
/// session gives. No other transition writes or changes any result.
pub proof fn lemma_result_needs_quorum(
    entries: Seq<OperationEntryView>,
    id: MerkleHash,
    now: BlockNumber,
    validator: AccountId,
    active: bool,
    vote: Vote,
    proof: JamProofView,
    cap: nat,
    threshold: nat,
    k: int,
)
    requires
        registry_wf(entries),
        0 <= k < entries.len(),
    ensures
        finalize_step(entries, id, threshold, now).1 is Ok ==> {
            let before = entry_of(entries, id);
            let after = finalize_step(entries, id, threshold, now).0[operation_index(
                entries,
                id,
            )];
            &&& has_operation(entries, id)
            &&& before.operation.status is InProgress
            &&& before.result is None
            &&& tally(before.session.attestations) >= threshold
            &&& tally(before.session.attestations) >= 1
            &&& after.result == session_result(before.session, threshold, now)
            &&& after.result is Some
            &&& after.session == before.session
        },
        finalize_step(entries, id, threshold, now).0.len() == entries.len(),
        finalize_step(entries, id, threshold, now).0[k].result != entries[k].result ==> k
            == operation_index(entries, id) && finalize_step(entries, id, threshold, now).1 is Ok,
        begin_step(entries, id, now).0.len() == entries.len(),
        begin_step(entries, id, now).0[k].result == entries[k].result,
        status_step(entries, id, now).0.len() == entries.len(),
        status_step(entries, id, now).0[k].result == entries[k].result,
        attest_step(entries, id, validator, active, vote, proof, now, cap).0.len()
            == entries.len(),
        attest_step(entries, id, validator, active, vote, proof, now, cap).0[k].result
            == entries[k].result,
        touch_all(entries, now).len() == entries.len(),
        touch_all(entries, now)[k].result == entries[k].result,
{
    if has_operation(entries, id) {
        let i = operation_index(entries, id);
        assert(entry_wf(entries[i]));
    }
}

/// Quorum finality. Where a vote changes the result of any operation, that
/// operation is the one voted on, it had no result before, and the tally of
/// its eligible votes has reached the quorum among the validators that are
/// active once the vote is cast.
pub proof fn lemma_vote_finalizes_on_quorum(
    c: CoordinatorView,
    validator: AccountId,
    id: MerkleHash,
    vote: Vote,
    proof: JamProofView,
    duration_ms: u32,
    now: BlockNumber,
    k: int,
)
    requires
        coordinator_wf(c),
        0 <= k < c.operations.len(),
    ensures
        cast_vote_step(c, validator, id, vote, proof, duration_ms, now).0.operations.len()
            == c.operations.len(),
        ({
            let after = cast_vote_step(c, validator, id, vote, proof, duration_ms, now).0;
            after.operations[k].result != c.operations[k].result ==> {
                &&& c.operations[k].operation.id == id
                &&& c.operations[k].result is None
                &&& after.operations[k].result is Some
                &&& tally(after.operations[k].session.attestations) >= quorum_threshold(
                    active_count(after.validators.validators),
                    c.quorum.numerator(),
                    c.quorum.denominator(),
                )
            }
        }),
{
    if is_registered(c.validators.validators, validator) {
        let active = is_active(c.validators.validators, validator);
        let cap = c.max_validators_per_operation as nat;
        let (attested, outcome) = attest_step(
            c.operations,
            id,
            validator,
            active,
            vote,
            proof,
            now,
            cap,
        );
        lemma_result_needs_quorum(c.operations, id, now, validator, active, vote, proof, cap, 0, k);
        if outcome is Ok {
            let validators = if active {
                vote_step(c.validators, validator, outcome->Ok_0, duration_ms, now).0
            } else {
                c.validators
            };
            let threshold = quorum_threshold(
                active_count(validators.validators),
                c.quorum.numerator(),
                c.quorum.denominator(),
            );
            let i = operation_index(c.operations, id);
            assert(entry_wf(c.operations[i]));
            assert(registry_wf(attested)) by {
                assert forall|j: int| 0 <= j < attested.len() implies entry_wf(
                    #[trigger] attested[j],
                ) by {
                    assert(entry_wf(c.operations[j]));
                }
            }
            lemma_operation_index(attested, id, i);
            lemma_result_needs_quorum(
                attested,
                id,
                now,
                validator,
                active,
                vote,
                proof,
                cap,
                threshold,
                k,
            );
        }
    }
}

/// The validators that a result names are a set within the configured
/// maximum: no more of them than it allows, none named twice, and each one
/// a validator that attested to the operation.
pub proof fn lemma_result_within_cap(c: CoordinatorView, k: int)
    requires
        coordinator_wf(c),
        0 <= k < c.operations.len(),
    ensures
        c.operations[k].result matches Some(r) ==> {
            &&& r.validators.len() <= c.max_validators_per_operation
            &&& r.validators.no_duplicates()
            &&& forall|v: AccountId| #[trigger]
                r.validators.contains(v) ==> has_attested(
                    c.operations[k].session.attestations,
                    v,
                )
        },
{
    assert(entry_wf(c.operations[k]));
    lemma_tally_bound(c.operations[k].session.attestations);
    lemma_participants_distinct(c.operations[k].session.attestations);
}

/// A duplicate submission changes nothing: it is refused with
/// `DuplicateOperation` and every record stays as it was.
pub proof fn lemma_duplicate_submission(
    entries: Seq<OperationEntryView>,
    operation: JamOperationView,
    root: MerkleHash,
)
    requires
        has_operation(entries, operation.id),
    ensures
        submit_step(entries, operation, root) == (
            entries,
            Err::<(), Error>(Error::DuplicateOperation),
        ),
{
}

} // verus!
