//! What a batch does with an entry that fails: in fail-fast mode the first
//! failure ends the batch; in best-effort mode the entry is left out and
//! the batch goes on. Every batch operation goes by this one policy.

use crate::error::{Failure, FailureView};
use vstd::prelude::*;

verus! {

/// Whether a failure ends the batch. In fail-fast mode every failure does;
/// in best-effort mode only one that must never be passed over.
pub open spec fn aborts(failure: FailureView, no_skip: bool) -> bool {
    no_skip || !failure.skippable()
}

/// What a batch makes of the outcomes of its entries, taken in order: the
/// first failure that ends the batch, or else the values of the entries
/// that succeeded, in their order.
pub open spec fn batch<T>(outcomes: Seq<Result<T, FailureView>>, no_skip: bool) -> Result<
    Seq<T>,
    FailureView,
>
    decreases outcomes.len(),
{
    if outcomes.len() == 0 {
        Ok(Seq::empty())
    } else {
        match batch(outcomes.drop_last(), no_skip) {
            Err(failure) => Err(failure),
            Ok(kept) => match outcomes.last() {
                Ok(value) => Ok(kept.push(value)),
                Err(failure) => if aborts(failure, no_skip) {
                    Err(failure)
                } else {
                    Ok(kept)
                },
            },
        }
    }
}

/// What the policy makes of one entry.
pub enum Step<T> {
    /// The entry succeeded: its value stays in the batch.
    Keep(T),
    /// The entry failed and is left out.
    Skip(Failure),
    /// The entry failed and the batch ends with its failure.
    Abort(Failure),
}

/// Whether `failure` ends the batch. This is the one place where the
/// policy is decided; every batch goes by it.
pub fn ends_batch(failure: &Failure, no_skip: bool) -> (ends: bool)
    ensures
        ends == aborts(failure@, no_skip),
{
    no_skip || !failure.is_skippable()
}

/// Applies the policy to the outcome of one entry.
pub fn apply_policy<T>(outcome: Result<T, Failure>, no_skip: bool) -> (step: Step<T>)
    ensures
        match outcome {
            Ok(value) => step == Step::Keep(value),
            Err(failure) => if aborts(failure@, no_skip) {
                step == Step::<T>::Abort(failure)
            } else {
                step == Step::<T>::Skip(failure)
            },
        },
{
    match outcome {
        Ok(value) => Step::Keep(value),
        Err(failure) => {
            if ends_batch(&failure, no_skip) {
                Step::Abort(failure)
            } else {
                Step::Skip(failure)
            }
        },
    }
}

/// A batch that has come through its first `k` entries ends at entry `k`
/// if that entry fails with a failure that ends the batch, whatever the
/// later entries would have brought.
pub proof fn lemma_batch_ends_at<T>(
    outcomes: Seq<Result<T, FailureView>>,
    no_skip: bool,
    k: int,
)
    requires
        0 <= k < outcomes.len(),
        batch(outcomes.take(k), no_skip) is Ok,
        outcomes[k] matches Err(failure) && aborts(failure, no_skip),
    ensures
        batch(outcomes, no_skip) == Err::<Seq<T>, FailureView>(outcomes[k]->Err_0),
    decreases outcomes.len(),
{
    let front = outcomes.drop_last();
    if k == outcomes.len() - 1 {
        assert(front =~= outcomes.take(k));
    } else {
        assert(front.take(k) =~= outcomes.take(k));
        lemma_batch_ends_at(front, no_skip, k);
    }
}

/// A batch keeps no more values than it has entries.
pub proof fn lemma_batch_keeps_no_more<T>(outcomes: Seq<Result<T, FailureView>>, no_skip: bool)
    ensures
        batch(outcomes, no_skip) matches Ok(kept) ==> kept.len() <= outcomes.len(),
    decreases outcomes.len(),
{
    if outcomes.len() > 0 {
        lemma_batch_keeps_no_more(outcomes.drop_last(), no_skip);
    }
}

/// A batch that fails, fails with the failure of one of its entries. A
/// batch without entries does not fail.
pub proof fn lemma_batch_fails_with_entry<T>(outcomes: Seq<Result<T, FailureView>>, no_skip: bool)
    ensures
        batch(outcomes, no_skip) matches Err(failure) ==> exists|k: int|
            0 <= k < outcomes.len() && #[trigger] outcomes[k] == Err::<T, FailureView>(failure),
    decreases outcomes.len(),
{
    if outcomes.len() > 0 {
        let front = outcomes.drop_last();
        lemma_batch_fails_with_entry(front, no_skip);
        if let Err(failure) = batch(outcomes, no_skip) {
            if batch(front, no_skip) is Err {
                let k = choose|k: int|
                    0 <= k < front.len() && #[trigger] front[k] == Err::<T, FailureView>(failure);
                assert(outcomes[k] == front[k]);
            } else {
                assert(outcomes[outcomes.len() - 1] == Err::<T, FailureView>(failure));
            }
        }
    }
}

/// In best-effort mode a batch of failures that may be passed over never
/// fails, and it keeps no more values than it has entries.
pub proof fn lemma_batch_best_effort<T>(outcomes: Seq<Result<T, FailureView>>)
    requires
        forall|i: int|
            0 <= i < outcomes.len() ==> (#[trigger] outcomes[i] matches Err(failure)
                ==> failure.skippable()),
    ensures
        batch(outcomes, false) is Ok,
        batch(outcomes, false)->Ok_0.len() <= outcomes.len(),
    decreases outcomes.len(),
{
    if outcomes.len() > 0 {
        let front = outcomes.drop_last();
        assert forall|i: int| 0 <= i < front.len() implies (#[trigger] front[i] matches Err(
            failure,
        ) ==> failure.skippable()) by {
            assert(front[i] == outcomes[i]);
        }
        lemma_batch_best_effort(front);
    }
}

/// A batch that succeeds in fail-fast mode has kept the value of every
/// entry: none has failed.
pub proof fn lemma_batch_fail_fast<T>(outcomes: Seq<Result<T, FailureView>>)
    requires
        batch(outcomes, true) is Ok,
    ensures
        batch(outcomes, true)->Ok_0.len() == outcomes.len(),
        forall|i: int|
            0 <= i < outcomes.len() ==> #[trigger] outcomes[i] == Ok::<T, FailureView>(
                batch(outcomes, true)->Ok_0[i],
            ),
    decreases outcomes.len(),
{
    if outcomes.len() > 0 {
        let front = outcomes.drop_last();
        lemma_batch_fail_fast(front);
        assert forall|i: int| 0 <= i < outcomes.len() implies #[trigger] outcomes[i] == Ok::<
            T,
            FailureView,
        >(batch(outcomes, true)->Ok_0[i]) by {
            if i < front.len() {
                assert(front[i] == outcomes[i]);
            }
        }
    }
}

/// A batch whose entries all succeed keeps every value, in either mode.
pub proof fn lemma_batch_of_successes<T>(values: Seq<T>, no_skip: bool)
    ensures
        batch(Seq::new(values.len(), |i: int| Ok::<T, FailureView>(values[i])), no_skip) == Ok::<
            Seq<T>,
            FailureView,
        >(values),
    decreases values.len(),
{
    let outcomes = Seq::new(values.len(), |i: int| Ok::<T, FailureView>(values[i]));
    if values.len() == 0 {
        assert(values =~= Seq::empty());
    } else {
        let front = values.drop_last();
        lemma_batch_of_successes(front, no_skip);
        assert(outcomes.drop_last() =~= Seq::new(
            front.len(),
            |i: int| Ok::<T, FailureView>(front[i]),
        ));
        assert(front.push(values.last()) =~= values);
    }
}

} // verus!
