//! What each report does to a spawn transaction, task by task.

use vstd::prelude::*;

verus! {

use crate::fragments::SpawnOutcome;
use crate::shapes::text_view;
use crate::spawn::{ResultModel, SpawnTask, StatusModel};

use crate::spawn_transaction::{
    available, available_threads, begun, cancel_step, cancelled_results, cleared_results,
    completed_step, continued_results, continued_statuses, continued_step, cut_short, failures,
    finishing, gate_step, ordinals_below, present, refused_results, reported_results,
    reserved_step, restart_results, restarted, restarted_shown, restarted_statuses, restarted_step,
    restarted_threads, resumed_waits, retry_admission_step, retry_path_error, retry_statuses_step,
    retry_teardown_step, rollback_step, settle_step, settled_results, subscribed_step,
    transaction_inv, unavailable_results, undone_results, unhindered, verdict, without_threads,
    GateAnswer, RetryAdmission, SpawnPhase, TransactionModel, WaitModel,
};

/// Whether a result reports a failure of a task in the given words.
pub open spec fn reports(
    slot: Option<ResultModel>,
    o: int,
    outcome: SpawnOutcome,
    words: Seq<char>,
    thread: Option<Seq<char>>,
) -> bool {
    slot matches Some(result) && result.ordinal == o as u32 && result.outcome == outcome
        && result.memory_body == words && result.diagnostic == Some(words)
        && result.execution_ref == thread
}

/// Whether two states differ in nothing that a transaction is begun with.
pub open spec fn same_request(s: TransactionModel, t: TransactionModel) -> bool {
    &&& t.call_id == s.call_id
    &&& t.tasks == s.tasks
    &&& t.child_paths == s.child_paths
    &&& t.gate_enabled == s.gate_enabled
}

/// A transaction begins by waiting for every branch that was started: no task
/// has a result, each has its thread, and progress shows the first statuses of
/// those that are still at work.
pub proof fn a_transaction_waits_for_every_branch(
    call_id: Seq<char>,
    tasks: Seq<SpawnTask>,
    child_paths: Seq<String>,
    gate_enabled: bool,
    threads: Seq<Seq<char>>,
    statuses: Seq<StatusModel>,
    o: int,
)
    requires
        0 <= o < tasks.len(),
    ensures
        ({
            let s = begun(call_id, tasks, child_paths, gate_enabled, threads, statuses);
            &&& s.phase == SpawnPhase::Attempts
            &&& s.call_id == call_id && s.tasks == tasks && s.child_paths == child_paths
            &&& s.gate_enabled == gate_enabled
            &&& s.results.len() == tasks.len() && s.results[o] is None
            &&& s.current.len() == tasks.len() && s.current[o] == Some(threads[o])
            &&& s.shown_threads == threads
            &&& s.shown.len() == tasks.len()
            &&& statuses[o] is PendingInit || statuses[o] is Running ==> s.shown[o] == statuses[o]
            &&& statuses[o] is Interrupted ==> s.shown[o] is Errored || s.shown[o] is Shutdown
            &&& s.waits.len() == tasks.len() && s.waits[o].ordinal == o as usize
            &&& s.waits[o].thread == threads[o] && !s.waits[o].resumed
            &&& s.settled.len() == tasks.len() && s.settled[o] is None
            &&& s.failed.len() == 0 && s.pending.len() == 0 && s.note is None
            &&& s.round == 1 && !s.cancelled && !s.gate_cancelled && s.fatal is None
        }),
{
}

/// An attempt that ends in a final memory settles as completed, any other as a
/// failure; progress shows it at once, and no other task is touched.
pub proof fn an_attempt_settles_alone(s: TransactionModel, k: int, status: StatusModel)
    requires
        transaction_inv(s),
        0 <= k < s.waits.len(),
    ensures
        ({
            let t = settle_step(s, k, status);
            let o = s.waits[k].ordinal;
            &&& t == (TransactionModel { settled: t.settled, shown: t.shown, ..s })
            &&& t.settled.len() == s.settled.len() && t.shown.len() == s.shown.len()
            &&& t.settled[k] matches Some(result) && result.ordinal == o as u32
                && result.execution_ref == Some(s.waits[k].thread)
            &&& (t.settled[k]->0.outcome is Completed) == (t.shown[o as int] is Completed)
            &&& t.settled[k]->0.outcome is Aborted ==> t.shown[o as int] is Shutdown
            &&& t.settled[k]->0.outcome is Completed ==> status == StatusModel::Completed(
                Some(t.settled[k]->0.memory_body),
            )
            &&& forall|j: int|
                0 <= j < s.settled.len() && j != k ==> #[trigger] t.settled[j] == s.settled[j]
            &&& forall|j: int|
                0 <= j < s.shown.len() && j != o ==> #[trigger] t.shown[j] == s.shown[j]
        }),
{
}

/// A task counts as failed exactly where it has a result that is no completion;
/// the failed tasks are listed once each, in order.
pub proof fn failures_are_the_results_that_did_not_complete(results: Seq<Option<ResultModel>>)
    requires
        results.len() <= usize::MAX,
    ensures
        forall|o: usize| #[trigger]
            failures(results).contains(o) <==> o < results.len() && (results[o as int] matches Some(
                result,
            ) && !(result.outcome is Completed)),
        forall|j: int, k: int|
            0 <= j < k < failures(results).len() ==> failures(results)[j] < failures(results)[k],
    decreases results.len(),
{
    if results.len() > 0 {
        let rest = results.drop_last();
        failures_are_the_results_that_did_not_complete(rest);
        let before = failures(rest);
        let now = failures(results);
        assert forall|k: int| 0 <= k < before.len() implies (#[trigger] before[k]) < rest.len() by {
            assert(before.contains(before[k]));
        }
        assert forall|o: usize| #[trigger]
            now.contains(o) <==> o < results.len() && (results[o as int] matches Some(result)
                && !(result.outcome is Completed)) by {
            assert(before.contains(o) <==> o < rest.len() && (rest[o as int] matches Some(result)
                && !(result.outcome is Completed)));
            if o < rest.len() {
                assert(rest[o as int] == results[o as int]);
            }
            if before.contains(o) {
                let k = choose|k: int| 0 <= k < before.len() && before[k] == o;
                assert(now[k] == o);
            }
            if now.contains(o) {
                let k = choose|k: int| 0 <= k < now.len() && now[k] == o;
                if k < before.len() {
                    assert(before[k] == o);
                }
            }
            if o == results.len() - 1 && now.len() > before.len() {
                assert(now[before.len() as int] == o);
            }
        }
    }
}

proof fn lemma_settled(s: TransactionModel, k: int)
    requires
        transaction_inv(s),
        0 <= k <= s.waits.len(),
    ensures
        settled_results(s, k).len() == s.results.len(),
        forall|o: int|
            0 <= o < s.results.len() && (forall|j: int|
                0 <= j < k ==> (#[trigger] s.waits[j]).ordinal != o) ==> #[trigger] settled_results(
                s,
                k,
            )[o] == s.results[o],
        forall|j: int|
            0 <= j < k && (forall|i: int|
                j < i < k ==> (#[trigger] s.waits[i]).ordinal != s.waits[j].ordinal)
                ==> settled_results(s, k)[(#[trigger] s.waits[j]).ordinal as int] == s.settled[j],
    decreases k,
{
    if k > 0 {
        lemma_settled(s, k - 1);
        let last = s.waits[k - 1];
        assert forall|o: int|
            0 <= o < s.results.len() && (forall|j: int|
                0 <= j < k ==> (#[trigger] s.waits[j]).ordinal
                    != o) implies #[trigger] settled_results(s, k)[o] == s.results[o] by {
            assert(last.ordinal != o);
            assert(settled_results(s, k - 1)[o] == s.results[o]);
        }
        assert forall|j: int|
            0 <= j < k && (forall|i: int|
                j < i < k ==> (#[trigger] s.waits[i]).ordinal
                    != s.waits[j].ordinal) implies settled_results(s, k)[(
        #[trigger] s.waits[j]).ordinal as int] == s.settled[j] by {
            if j < k - 1 {
                assert(last.ordinal != s.waits[j].ordinal);
            }
        }
    }
}

/// Once every attempt has ended, each task that was waited for has what its
/// last attempt came to, and every other task the result that it had; the
/// failures are put to the user where there are any and the user is asked at
/// all, and else the transaction is torn down.
pub proof fn attempts_give_their_tasks_results(s: TransactionModel)
    requires
        transaction_inv(s),
        !s.cancelled,
    ensures
        ({
            let t = completed_step(s);
            &&& t == (TransactionModel { results: t.results, failed: t.failed, phase: t.phase, ..s })
            &&& t.results.len() == s.results.len()
            &&& forall|o: int|
                0 <= o < s.results.len() && (forall|j: int|
                    0 <= j < s.waits.len() ==> (#[trigger] s.waits[j]).ordinal != o)
                    ==> #[trigger] t.results[o] == s.results[o]
            &&& forall|j: int|
                0 <= j < s.waits.len() && (forall|i: int|
                    j < i < s.waits.len() ==> (#[trigger] s.waits[i]).ordinal != s.waits[j].ordinal)
                    ==> t.results[(#[trigger] s.waits[j]).ordinal as int] == s.settled[j]
            &&& t.failed == failures(t.results)
            &&& t.phase == if t.failed.len() > 0 && s.gate_enabled {
                SpawnPhase::Gate
            } else {
                SpawnPhase::Teardown
            }
        }),
{
    lemma_settled(s, s.waits.len() as int);
}

/// Whether a result is that of an attempt which a cancellation found in the
/// given status: aborted where the branch was still at work, and else what its
/// status says.
pub open spec fn found_by_cancellation(
    slot: Option<ResultModel>,
    wait: WaitModel,
    status: StatusModel,
) -> bool {
    if status is PendingInit || status is Running {
        reports(
            slot,
            wait.ordinal as int,
            SpawnOutcome::Aborted,
            "branch aborted because the originating spine.spawn transaction was cancelled"@,
            Some(wait.thread),
        )
    } else {
        slot matches Some(result) && result.ordinal == wait.ordinal as u32
            && result.execution_ref == Some(wait.thread) && (result.outcome is Completed ==> status
            == StatusModel::Completed(Some(result.memory_body)))
    }
}

proof fn lemma_cut_short(wait: WaitModel, status: StatusModel)
    ensures
        found_by_cancellation(Some(cut_short(wait, status)), wait, status),
{
}

proof fn lemma_cancelled(s: TransactionModel, statuses: Seq<StatusModel>, k: int)
    requires
        transaction_inv(s),
        0 <= k <= s.waits.len(),
    ensures
        cancelled_results(s, statuses, k).len() == s.results.len(),
        forall|o: int|
            0 <= o < s.results.len() && (forall|j: int|
                0 <= j < k ==> (#[trigger] s.waits[j]).ordinal
                    != o) ==> #[trigger] cancelled_results(s, statuses, k)[o] == s.results[o],
        forall|j: int|
            0 <= j < k && (forall|i: int|
                j < i < k ==> (#[trigger] s.waits[i]).ordinal != s.waits[j].ordinal)
                ==> cancelled_results(s, statuses, k)[(#[trigger] s.waits[j]).ordinal as int] == Some(
                cut_short(s.waits[j], statuses[j]),
            ),
    decreases k,
{
    if k > 0 {
        lemma_cancelled(s, statuses, k - 1);
        let last = s.waits[k - 1];
        let before = cancelled_results(s, statuses, k - 1);
        let now = cancelled_results(s, statuses, k);
        assert(now.len() == before.len());
        assert forall|o: int|
            0 <= o < s.results.len() && (forall|j: int|
                0 <= j < k ==> (#[trigger] s.waits[j]).ordinal != o) implies #[trigger] now[o]
            == s.results[o] by {
            assert(last.ordinal != o);
            assert(before[o] == s.results[o]);
        }
        assert forall|j: int|
            0 <= j < k - 1 && (forall|i: int|
                j < i < k ==> (#[trigger] s.waits[i]).ordinal
                    != s.waits[j].ordinal) implies now[(#[trigger] s.waits[j]).ordinal as int]
            == before[s.waits[j].ordinal as int] by {
            assert(last.ordinal != s.waits[j].ordinal);
        }
    }
}

/// A cancellation during the attempts leaves no task without a result: a branch
/// that had stopped is judged by how it stopped, one that was still at work is
/// aborted, and so is every other task that has no result yet.
pub proof fn a_cancellation_answers_every_task(s: TransactionModel, statuses: Seq<StatusModel>)
    requires
        transaction_inv(s),
        s.tasks.len() <= usize::MAX,
    ensures
        ({
            let t = cancel_step(s, statuses);
            &&& t.cancelled && t.phase == SpawnPhase::Teardown
            &&& t == (TransactionModel {
                results: t.results,
                shown: t.shown,
                cancelled: true,
                phase: SpawnPhase::Teardown,
                ..s
            })
            &&& forall|o: int|
                0 <= o < s.results.len() && (forall|j: int|
                    0 <= j < s.waits.len() ==> (#[trigger] s.waits[j]).ordinal != o) ==> if s.results[o] is Some {
                    #[trigger] t.results[o] == s.results[o]
                } else {
                    reports(
                        t.results[o],
                        o,
                        SpawnOutcome::Aborted,
                        "branch aborted because the originating spine.spawn transaction was cancelled"@,
                        s.current[o],
                    )
                }
            &&& forall|j: int|
                0 <= j < s.waits.len() && (forall|i: int|
                    j < i < s.waits.len() ==> (#[trigger] s.waits[i]).ordinal != s.waits[j].ordinal)
                    ==> found_by_cancellation(
                    t.results[(#[trigger] s.waits[j]).ordinal as int],
                    s.waits[j],
                    statuses[j],
                )
        }),
{
    lemma_cancelled(s, statuses, s.waits.len() as int);
    let n = s.waits.len() as int;
    let t = cancel_step(s, statuses);
    let found = cancelled_results(s, statuses, n);
    assert forall|j: int|
        0 <= j < n && (forall|i: int|
            j < i < n ==> (#[trigger] s.waits[i]).ordinal
                != s.waits[j].ordinal) implies found_by_cancellation(
        t.results[(#[trigger] s.waits[j]).ordinal as int],
        s.waits[j],
        statuses[j],
    ) by {
        assert(found[s.waits[j].ordinal as int] is Some);
        lemma_cut_short(s.waits[j], statuses[j]);
    }
}

/// When a transaction is torn down after a cancellation, a task without a result
/// is reported as aborted under its thread, and progress shows every result;
/// without a cancellation nothing but the phase changes.
pub proof fn a_teardown_changes_results_only_after_a_cancellation(s: TransactionModel, o: int)
    requires
        transaction_inv(s),
        s.tasks.len() <= usize::MAX,
        0 <= o < s.tasks.len(),
    ensures
        finishing(s).phase == SpawnPhase::Teardown,
        !s.cancelled ==> finishing(s) == (TransactionModel { phase: SpawnPhase::Teardown, ..s }),
        s.cancelled ==> {
            let t = finishing(s);
            &&& t == (TransactionModel {
                results: t.results,
                shown: t.shown,
                phase: SpawnPhase::Teardown,
                ..s
            })
            &&& s.results[o] is Some ==> t.results[o] == s.results[o]
            &&& s.results[o] is None ==> reports(
                t.results[o],
                o,
                SpawnOutcome::Aborted,
                "branch aborted because the originating spine.spawn transaction was cancelled"@,
                s.current[o],
            )
            &&& match t.results[o]->0.outcome {
                SpawnOutcome::Completed => t.shown[o] == StatusModel::Completed(None),
                SpawnOutcome::Errored => t.shown[o] is Errored,
                SpawnOutcome::Aborted => t.shown[o] == StatusModel::Shutdown,
            }
        },
{
}

/// A cancelled question tears the transaction down as cancelled, a dismissed one
/// as dismissed, and so does the decision to abandon, which marks neither.
pub proof fn some_answers_end_the_transaction(s: TransactionModel, answer: GateAnswer)
    requires
        transaction_inv(s),
        !s.cancelled,
    ensures
        answer is Cancelled ==> {
            let t = gate_step(s, answer);
            &&& t.cancelled && t.phase == SpawnPhase::Teardown
            &&& t.gate_cancelled == s.gate_cancelled && t.round == s.round && t.note == s.note
            &&& t.fatal == s.fatal && t.current == s.current && same_request(s, t)
        },
        answer is Dismissed ==> gate_step(s, answer) == (TransactionModel {
            gate_cancelled: true,
            phase: SpawnPhase::Teardown,
            ..s
        }),
        answer matches GateAnswer::Decided(decision) ==> {
            let t = gate_step(s, answer);
            &&& s.round < u32::MAX ==> t.round == s.round + 1
            &&& s.round == u32::MAX ==> t.round == u32::MAX
            &&& t.note == text_view(decision.note)
            &&& !t.cancelled && t.gate_cancelled == s.gate_cancelled && t.fatal == s.fatal
            &&& t.current == s.current && t.shown == s.shown && t.failed == s.failed
            &&& same_request(s, t)
            &&& decision.action is Abandon ==> t.phase == SpawnPhase::Teardown && t.results
                == s.results
            &&& decision.action is Continue ==> t.phase == SpawnPhase::Subscriptions
            &&& decision.action is Retry ==> t.phase == SpawnPhase::RetryTeardown && t.results
                == s.results
        },
{
}

proof fn lemma_available(s: TransactionModel, k: int)
    requires
        transaction_inv(s),
        0 <= k <= s.failed.len(),
    ensures
        unavailable_results(s, k).len() == s.results.len(),
        forall|o: int|
            0 <= o < s.results.len() && (forall|j: int|
                0 <= j < k ==> #[trigger] s.failed[j] != o) ==> #[trigger] unavailable_results(
                s,
                k,
            )[o] == s.results[o],
        forall|j: int|
            0 <= j < k ==> if s.current[(#[trigger] s.failed[j]) as int] is Some {
                unavailable_results(s, k)[s.failed[j] as int] == s.results[s.failed[j] as int]
            } else {
                reports(
                    unavailable_results(s, k)[s.failed[j] as int],
                    s.failed[j] as int,
                    SpawnOutcome::Errored,
                    "child cannot continue because its thread is no longer available"@,
                    None,
                )
            },
        available(s, k) == s.failed.take(k).filter(|o: usize| s.current[o as int] is Some),
    decreases k,
{
    reveal(Seq::filter);
    if k > 0 {
        lemma_available(s, k - 1);
        assert(s.failed.take(k).drop_last() =~= s.failed.take(k - 1));
        let before = unavailable_results(s, k - 1);
        let now = unavailable_results(s, k);
        let last = s.failed[k - 1];
        assert forall|j: int| 0 <= j < k - 1 implies now[(#[trigger] s.failed[j]) as int]
            == before[s.failed[j] as int] by {
            assert(s.failed[j] < last);
        }
        assert forall|o: int|
            0 <= o < s.results.len() && (forall|j: int|
                0 <= j < k ==> #[trigger] s.failed[j] != o) implies #[trigger] now[o]
            == s.results[o] by {
            assert(last != o);
            assert(before[o] == s.results[o]);
        }
        assert(before[last as int] == s.results[last as int]) by {
            assert forall|j: int| 0 <= j < k - 1 implies #[trigger] s.failed[j] != last by {}
        }
    } else {
        assert(s.failed.take(0) =~= Seq::<usize>::empty());
    }
}

/// Where failed branches are to go on, exactly those that still have a thread
/// are taken up, in order; the others fail for good, and no other task changes.
pub proof fn only_branches_with_a_thread_go_on(s: TransactionModel, answer: GateAnswer)
    requires
        transaction_inv(s),
        answer matches GateAnswer::Decided(decision) && decision.action is Continue,
    ensures
        ({
            let t = gate_step(s, answer);
            &&& t.pending == s.failed.filter(|o: usize| s.current[o as int] is Some)
            &&& t.results.len() == s.results.len()
            &&& forall|o: int|
                0 <= o < s.results.len() && (forall|j: int|
                    0 <= j < s.failed.len() ==> #[trigger] s.failed[j] != o)
                    ==> #[trigger] t.results[o] == s.results[o]
            &&& forall|j: int|
                0 <= j < s.failed.len() ==> if s.current[(#[trigger] s.failed[j]) as int] is Some {
                    t.results[s.failed[j] as int] == s.results[s.failed[j] as int]
                } else {
                    reports(
                        t.results[s.failed[j] as int],
                        s.failed[j] as int,
                        SpawnOutcome::Errored,
                        "child cannot continue because its thread is no longer available"@,
                        None,
                    )
                }
        }),
{
    lemma_available(s, s.failed.len() as int);
    assert(s.failed.take(s.failed.len() as int) =~= s.failed);
}

proof fn lemma_reported(
    s: TransactionModel,
    prefix: Seq<char>,
    outcomes: Seq<Option<Seq<char>>>,
    k: int,
)
    requires
        transaction_inv(s),
        0 <= k <= s.pending.len(),
    ensures
        reported_results(s, prefix, outcomes, k).len() == s.results.len(),
        forall|o: int|
            0 <= o < s.results.len() && (forall|j: int|
                0 <= j < k ==> #[trigger] s.pending[j] != o) ==> #[trigger] reported_results(
                s,
                prefix,
                outcomes,
                k,
            )[o] == s.results[o],
        forall|j: int|
            0 <= j < k ==> {
                let o = #[trigger] s.pending[j];
                match outcomes[j] {
                    None => reported_results(s, prefix, outcomes, k)[o as int]
                        == s.results[o as int],
                    Some(error) => reports(
                        reported_results(s, prefix, outcomes, k)[o as int],
                        o as int,
                        SpawnOutcome::Errored,
                        prefix + error,
                        Some(s.current[o as int]->0),
                    ),
                }
            },
    decreases k,
{
    if k > 0 {
        lemma_reported(s, prefix, outcomes, k - 1);
        let before = reported_results(s, prefix, outcomes, k - 1);
        let now = reported_results(s, prefix, outcomes, k);
        let last = s.pending[k - 1];
        assert forall|j: int| 0 <= j < k - 1 implies now[(#[trigger] s.pending[j]) as int]
            == before[s.pending[j] as int] by {
            assert(s.pending[j] < last);
        }
        assert forall|o: int|
            0 <= o < s.results.len() && (forall|j: int|
                0 <= j < k ==> #[trigger] s.pending[j] != o) implies #[trigger] now[o]
            == s.results[o] by {
            assert(last != o);
            assert(before[o] == s.results[o]);
        }
        assert(before[last as int] == s.results[last as int]) by {
            assert forall|j: int| 0 <= j < k - 1 implies #[trigger] s.pending[j] != last by {}
        }
    }
}

proof fn lemma_unhindered(s: TransactionModel, outcomes: Seq<Option<Seq<char>>>, k: int)
    requires
        0 <= k <= s.pending.len(),
        ordinals_below(s.pending, s.tasks.len()),
    ensures
        forall|o: usize| #[trigger]
            unhindered(s, outcomes, k).contains(o) <==> exists|j: int|
                0 <= j < k && #[trigger] s.pending[j] == o && outcomes[j] is None,
        forall|i: int, j: int|
            0 <= i < j < unhindered(s, outcomes, k).len() ==> unhindered(s, outcomes, k)[i]
                < unhindered(s, outcomes, k)[j],
    decreases k,
{
    if k > 0 {
        lemma_unhindered(s, outcomes, k - 1);
        let before = unhindered(s, outcomes, k - 1);
        let now = unhindered(s, outcomes, k);
        assert forall|o: usize| #[trigger]
            now.contains(o) <==> exists|j: int|
                0 <= j < k && #[trigger] s.pending[j] == o && outcomes[j] is None by {
            if before.contains(o) {
                let i = choose|i: int| 0 <= i < before.len() && before[i] == o;
                assert(now[i] == o);
            }
            if now.contains(o) {
                let i = choose|i: int| 0 <= i < now.len() && now[i] == o;
                if i < before.len() {
                    assert(before[i] == o);
                    assert(before.contains(o));
                } else {
                    assert(s.pending[k - 1] == o);
                }
            }
            if s.pending[k - 1] == o && outcomes[k - 1] is None {
                assert(now[before.len() as int] == o);
            }
        }
        assert forall|i: int| 0 <= i < before.len() implies #[trigger] before[i]
            < s.pending[k - 1] by {
            assert(before.contains(before[i]));
        }
    }
}

/// A branch whose status could not be followed reports why and is not taken up
/// further; every other pending branch is, in order, and then needs a slot.
pub proof fn branches_that_can_be_followed_need_a_slot(
    s: TransactionModel,
    outcomes: Seq<Option<Seq<char>>>,
)
    requires
        transaction_inv(s),
        outcomes.len() == s.pending.len(),
    ensures
        ({
            let t = subscribed_step(s, outcomes);
            &&& t == (TransactionModel {
                results: t.results,
                pending: t.pending,
                phase: SpawnPhase::Reservation,
                ..s
            })
            &&& t.results.len() == s.results.len()
            &&& forall|o: int|
                0 <= o < s.results.len() && (forall|j: int|
                    0 <= j < s.pending.len() ==> #[trigger] s.pending[j] != o)
                    ==> #[trigger] t.results[o] == s.results[o]
            &&& forall|j: int|
                0 <= j < s.pending.len() ==> {
                    let o = #[trigger] s.pending[j];
                    match outcomes[j] {
                        None => t.results[o as int] == s.results[o as int],
                        Some(error) => reports(
                            t.results[o as int],
                            o as int,
                            SpawnOutcome::Errored,
                            "child cannot continue: "@ + error,
                            Some(s.current[o as int]->0),
                        ),
                    }
                }
            &&& forall|o: usize| #[trigger]
                t.pending.contains(o) <==> exists|j: int|
                    0 <= j < s.pending.len() && #[trigger] s.pending[j] == o && outcomes[j] is None
            &&& forall|i: int, j: int|
                0 <= i < j < t.pending.len() ==> t.pending[i] < t.pending[j]
        }),
{
    lemma_reported(s, "child cannot continue: "@, outcomes, s.pending.len() as int);
    lemma_unhindered(s, outcomes, s.pending.len() as int);
}

/// Granted slots only move the transaction on. A refusal is reported for every
/// pending branch, and the round is over with nothing to wait for.
pub proof fn slots_are_granted_to_all_or_none(s: TransactionModel, error: Option<Seq<char>>)
    requires
        transaction_inv(s),
    ensures
        error is None ==> reserved_step(s, error) == (TransactionModel {
            phase: SpawnPhase::Continuations,
            ..s
        }),
        error matches Some(words) ==> {
            let t = reserved_step(s, error);
            &&& t.phase == SpawnPhase::Attempts && t.waits.len() == 0 && t.settled.len() == 0
            &&& t == (TransactionModel {
                results: t.results,
                shown: t.shown,
                waits: t.waits,
                settled: t.settled,
                phase: SpawnPhase::Attempts,
                ..s
            })
            &&& t.results.len() == s.results.len()
            &&& forall|o: int|
                0 <= o < s.results.len() && (forall|j: int|
                    0 <= j < s.pending.len() ==> #[trigger] s.pending[j] != o)
                    ==> #[trigger] t.results[o] == s.results[o]
            &&& forall|j: int|
                0 <= j < s.pending.len() ==> reports(
                    t.results[(#[trigger] s.pending[j]) as int],
                    s.pending[j] as int,
                    SpawnOutcome::Errored,
                    "child continuation admission failed: "@ + words,
                    Some(s.current[s.pending[j] as int]->0),
                )
            &&& progress_shows(t.results, s.shown, t.shown)
        },
{
    if let Some(words) = error {
        lemma_reported(
            s,
            "child continuation admission failed: "@,
            Seq::new(s.pending.len(), |k: int| Some(words)),
            s.pending.len() as int,
        );
    }
}

/// Whether progress shows each result that is there, and else what it showed.
pub open spec fn progress_shows(
    results: Seq<Option<ResultModel>>,
    before: Seq<StatusModel>,
    now: Seq<StatusModel>,
) -> bool {
    &&& now.len() == before.len()
    &&& forall|o: int|
        0 <= o < now.len() ==> match results[o] {
            None => #[trigger] now[o] == before[o],
            Some(result) => match result.outcome {
                SpawnOutcome::Completed => now[o] == StatusModel::Completed(None),
                SpawnOutcome::Errored => now[o] == StatusModel::Errored(
                    match result.diagnostic {
                        Some(diagnostic) => diagnostic,
                        None => result.memory_body,
                    },
                ),
                SpawnOutcome::Aborted => now[o] == StatusModel::Shutdown,
            },
        }
}

proof fn lemma_continued(s: TransactionModel, outcomes: Seq<Option<Seq<char>>>, k: int)
    requires
        transaction_inv(s),
        0 <= k <= s.pending.len(),
    ensures
        continued_results(s, outcomes, k).len() == s.results.len(),
        forall|o: int|
            0 <= o < s.results.len() && (forall|j: int|
                0 <= j < k ==> #[trigger] s.pending[j] != o) ==> #[trigger] continued_results(s, outcomes, k)[o]
                == s.results[o],
        forall|j: int|
            0 <= j < k ==> {
                let o = (#[trigger] s.pending[j]) as int;
                let now = continued_results(s, outcomes, k)[o];
                match outcomes[j] {
                    None => now is None,
                    Some(error) => reports(
                        now,
                        o,
                        SpawnOutcome::Errored,
                        "child continuation failed to start: "@ + error,
                        Some(s.current[o]->0),
                    ),
                }
            },
    decreases k,
{
    if k > 0 {
        lemma_continued(s, outcomes, k - 1);
        let before = continued_results(s, outcomes, k - 1);
        let now = continued_results(s, outcomes, k);
        let last = s.pending[k - 1];
        assert forall|j: int| 0 <= j < k - 1 implies now[(#[trigger] s.pending[j]) as int]
            == before[s.pending[j] as int] by {
            assert(s.pending[j] < last);
        }
        assert forall|o: int|
            0 <= o < s.results.len() && (forall|j: int|
                0 <= j < k ==> #[trigger] s.pending[j] != o) implies #[trigger] now[o]
            == s.results[o] by {
            assert(last != o);
            assert(before[o] == s.results[o]);
        }
        assert(before[last as int] == s.results[last as int]) by {
            assert forall|j: int| 0 <= j < k - 1 implies #[trigger] s.pending[j] != last by {}
        }
    }
}

proof fn lemma_continued_statuses(s: TransactionModel, results: Seq<Option<ResultModel>>, k: int)
    requires
        transaction_inv(s),
        0 <= k <= s.failed.len(),
    ensures
        continued_statuses(s, results, k).len() == s.shown.len(),
        forall|o: int|
            0 <= o < s.shown.len() && (forall|j: int|
                0 <= j < k ==> #[trigger] s.failed[j] != o) ==> #[trigger] continued_statuses(s, results, k)[o]
                == s.shown[o],
        forall|j: int|
            0 <= j < k ==> {
                let o = (#[trigger] s.failed[j]) as int;
                let now = continued_statuses(s, results, k)[o];
                match results[o] {
                    None => now == StatusModel::Running,
                    Some(result) => match result.outcome {
                        SpawnOutcome::Completed => now == StatusModel::Completed(None),
                        SpawnOutcome::Errored => now is Errored,
                        SpawnOutcome::Aborted => now == StatusModel::Shutdown,
                    },
                }
            },
    decreases k,
{
    if k > 0 {
        lemma_continued_statuses(s, results, k - 1);
        let before = continued_statuses(s, results, k - 1);
        let now = continued_statuses(s, results, k);
        let last = s.failed[k - 1];
        assert forall|j: int| 0 <= j < k - 1 implies now[(#[trigger] s.failed[j]) as int]
            == before[s.failed[j] as int] by {
            assert(s.failed[j] < last);
        }
        assert forall|o: int|
            0 <= o < s.shown.len() && (forall|j: int|
                0 <= j < k ==> #[trigger] s.failed[j] != o) implies #[trigger] now[o]
            == s.shown[o] by {
            assert(last != o);
            assert(before[o] == s.shown[o]);
        }
        assert(before[last as int] == s.shown[last as int]) by {
            assert forall|j: int| 0 <= j < k - 1 implies #[trigger] s.failed[j] != last by {}
        }
    }
}

proof fn lemma_resumed(s: TransactionModel, outcomes: Seq<Option<Seq<char>>>, k: int)
    requires
        0 <= k <= s.pending.len(),
    ensures
        forall|j: int|
            0 <= j < k && outcomes[j] is None ==> resumed_waits(s, outcomes, k).contains(
                WaitModel {
                    ordinal: #[trigger] s.pending[j],
                    thread: s.current[s.pending[j] as int]->0,
                    resumed: true,
                },
            ),
        forall|i: int|
            0 <= i < resumed_waits(s, outcomes, k).len() ==> {
                let wait = #[trigger] resumed_waits(s, outcomes, k)[i];
                &&& wait.resumed
                &&& wait.thread == s.current[wait.ordinal as int]->0
                &&& exists|j: int|
                    0 <= j < k && #[trigger] s.pending[j] == wait.ordinal && outcomes[j] is None
            },
    decreases k,
{
    if k > 0 {
        lemma_resumed(s, outcomes, k - 1);
        let before = resumed_waits(s, outcomes, k - 1);
        let now = resumed_waits(s, outcomes, k);
        assert forall|j: int| 0 <= j < k && outcomes[j] is None implies now.contains(
            WaitModel {
                ordinal: #[trigger] s.pending[j],
                thread: s.current[s.pending[j] as int]->0,
                resumed: true,
            },
        ) by {
            let wait = WaitModel {
                ordinal: s.pending[j],
                thread: s.current[s.pending[j] as int]->0,
                resumed: true,
            };
            if j < k - 1 {
                let i = choose|i: int| 0 <= i < before.len() && before[i] == wait;
                assert(now[i] == wait);
            } else {
                assert(now[before.len() as int] == wait);
            }
        }
        assert forall|i: int| 0 <= i < now.len() implies {
            let wait = #[trigger] now[i];
            &&& wait.resumed
            &&& wait.thread == s.current[wait.ordinal as int]->0
            &&& exists|j: int|
                0 <= j < k && #[trigger] s.pending[j] == wait.ordinal && outcomes[j] is None
        } by {
            if i < before.len() {
                assert(now[i] == before[i]);
            } else {
                assert(s.pending[k - 1] == now[i].ordinal);
            }
        }
    }
}

/// A branch that was told to go on is waited for again, in its own thread and
/// without a result; one that could not be told reports why and is not waited
/// for. Progress shows those at work as running, and no other task changes.
pub proof fn branches_that_were_told_go_on(
    s: TransactionModel,
    outcomes: Seq<Option<Seq<char>>>,
)
    requires
        transaction_inv(s),
        outcomes.len() == s.pending.len(),
    ensures
        ({
            let t = continued_step(s, outcomes);
            &&& t == (TransactionModel {
                results: t.results,
                shown: t.shown,
                waits: t.waits,
                settled: t.settled,
                phase: SpawnPhase::Attempts,
                ..s
            })
            &&& t.results.len() == s.results.len()
            &&& forall|o: int|
                0 <= o < s.results.len() && (forall|j: int|
                    0 <= j < s.pending.len() ==> #[trigger] s.pending[j] != o)
                    ==> #[trigger] t.results[o] == s.results[o]
            &&& forall|j: int|
                0 <= j < s.pending.len() ==> {
                    let o = (#[trigger] s.pending[j]) as int;
                    match outcomes[j] {
                        None => t.results[o] is None && t.waits.contains(
                            WaitModel {
                                ordinal: s.pending[j],
                                thread: s.current[o]->0,
                                resumed: true,
                            },
                        ),
                        Some(error) => reports(
                            t.results[o],
                            o,
                            SpawnOutcome::Errored,
                            "child continuation failed to start: "@ + error,
                            Some(s.current[o]->0),
                        ),
                    }
                }
            &&& forall|i: int|
                0 <= i < t.waits.len() ==> exists|j: int|
                    0 <= j < s.pending.len() && #[trigger] s.pending[j] == (
                    #[trigger] t.waits[i]).ordinal && outcomes[j] is None
            &&& t.settled.len() == t.waits.len()
            &&& forall|i: int| 0 <= i < t.settled.len() ==> #[trigger] t.settled[i] is None
            &&& t.shown.len() == s.shown.len()
            &&& forall|o: int|
                0 <= o < s.shown.len() && (forall|j: int|
                    0 <= j < s.failed.len() ==> #[trigger] s.failed[j] != o)
                    ==> #[trigger] t.shown[o] == s.shown[o]
            &&& forall|j: int|
                0 <= j < s.failed.len() ==> {
                    let o = (#[trigger] s.failed[j]) as int;
                    match t.results[o] {
                        None => t.shown[o] == StatusModel::Running,
                        Some(result) => match result.outcome {
                            SpawnOutcome::Completed => t.shown[o] == StatusModel::Completed(None),
                            SpawnOutcome::Errored => t.shown[o] is Errored,
                            SpawnOutcome::Aborted => t.shown[o] == StatusModel::Shutdown,
                        },
                    }
                }
        }),
{
    let n = s.pending.len() as int;
    lemma_continued(s, outcomes, n);
    lemma_continued_statuses(s, continued_results(s, outcomes, n), s.failed.len() as int);
    lemma_resumed(s, outcomes, n);
}

proof fn lemma_without_threads(current: Seq<Option<Seq<char>>>, ordinals: Seq<usize>, k: int)
    requires
        0 <= k <= ordinals.len(),
        forall|j: int| 0 <= j < ordinals.len() ==> (#[trigger] ordinals[j]) < current.len(),
    ensures
        without_threads(current, ordinals, k).len() == current.len(),
        forall|o: int|
            0 <= o < current.len() && (forall|j: int|
                0 <= j < k ==> #[trigger] ordinals[j] != o) ==> #[trigger] without_threads(
                current,
                ordinals,
                k,
            )[o] == current[o],
        forall|j: int|
            0 <= j < k ==> without_threads(current, ordinals, k)[(
            #[trigger] ordinals[j]) as int] is None,
    decreases k,
{
    if k > 0 {
        lemma_without_threads(current, ordinals, k - 1);
        let before = without_threads(current, ordinals, k - 1);
        let now = without_threads(current, ordinals, k);
        assert forall|o: int|
            0 <= o < current.len() && (forall|j: int|
                0 <= j < k ==> #[trigger] ordinals[j] != o) implies #[trigger] now[o]
            == current[o] by {
            assert(ordinals[k - 1] != o);
            assert(before[o] == current[o]);
        }
    }
}

/// Once the failed branches are torn down none of them has a thread, and the
/// others keep theirs; new starts are then asked for, unless the transaction was
/// cancelled. A teardown that fails ends the transaction with its error.
pub proof fn torn_down_branches_have_no_thread(
    s: TransactionModel,
    error: Option<Seq<char>>,
    cancelled: bool,
)
    requires
        transaction_inv(s),
        !s.cancelled,
    ensures
        ({
            let t = retry_teardown_step(s, error, cancelled);
            &&& error is Some ==> t == (TransactionModel {
                fatal: error,
                phase: SpawnPhase::Teardown,
                ..s
            })
            &&& error is None ==> {
                &&& t.current.len() == s.current.len()
                &&& forall|o: int|
                    0 <= o < s.current.len() && (forall|j: int|
                        0 <= j < s.failed.len() ==> #[trigger] s.failed[j] != o)
                        ==> #[trigger] t.current[o] == s.current[o]
                &&& forall|j: int|
                    0 <= j < s.failed.len() ==> t.current[(#[trigger] s.failed[j]) as int] is None
                &&& t.cancelled == cancelled
                &&& t.phase == if cancelled {
                    SpawnPhase::Teardown
                } else {
                    SpawnPhase::RetryAdmission
                }
                &&& !cancelled ==> t.results == s.results && t.shown == s.shown
                &&& t.fatal == s.fatal && t.failed == s.failed && t.round == s.round
                &&& same_request(s, t)
            }
        }),
{
    lemma_without_threads(s.current, s.failed, s.failed.len() as int);
}

proof fn lemma_refused(s: TransactionModel, error: Seq<char>, k: int)
    requires
        transaction_inv(s),
        0 <= k <= s.failed.len(),
    ensures
        refused_results(s, error, k).len() == s.results.len(),
        forall|o: int|
            0 <= o < s.results.len() && (forall|j: int|
                0 <= j < k ==> #[trigger] s.failed[j] != o) ==> #[trigger] refused_results(s, error, k)[o]
                == s.results[o],
        forall|j: int|
            0 <= j < k ==> {
                let o = (#[trigger] s.failed[j]) as int;
                let now = refused_results(s, error, k)[o];
                reports(
                    now,
                    o,
                    SpawnOutcome::Errored,
                    "child retry admission failed: "@ + error,
                    None,
                )
            },
    decreases k,
{
    if k > 0 {
        lemma_refused(s, error, k - 1);
        let before = refused_results(s, error, k - 1);
        let now = refused_results(s, error, k);
        let last = s.failed[k - 1];
        assert forall|j: int| 0 <= j < k - 1 implies now[(#[trigger] s.failed[j]) as int]
            == before[s.failed[j] as int] by {
            assert(s.failed[j] < last);
        }
        assert forall|o: int|
            0 <= o < s.results.len() && (forall|j: int|
                0 <= j < k ==> #[trigger] s.failed[j] != o) implies #[trigger] now[o]
            == s.results[o] by {
            assert(last != o);
            assert(before[o] == s.results[o]);
        }
        assert(before[last as int] == s.results[last as int]) by {
            assert forall|j: int| 0 <= j < k - 1 implies #[trigger] s.failed[j] != last by {}
        }
    }
}

/// New starts that were admitted go ahead unless the transaction was cancelled;
/// a refusal is reported for every failed task and ends the round; a request
/// that could not be made ends the transaction with its error.
pub proof fn new_starts_are_admitted_together(s: TransactionModel, admission: RetryAdmission)
    requires
        transaction_inv(s),
        !s.cancelled,
    ensures
        match admission {
            RetryAdmission::RequestFailed(error) => retry_admission_step(s, admission) == (
            TransactionModel { fatal: Some(error@), phase: SpawnPhase::Teardown, ..s }),
            RetryAdmission::Refused(error) => {
                let t = retry_admission_step(s, admission);
                &&& t == (TransactionModel {
                    results: t.results,
                    shown: t.shown,
                    waits: t.waits,
                    settled: t.settled,
                    phase: SpawnPhase::Attempts,
                    ..s
                })
                &&& t.waits.len() == 0 && t.settled.len() == 0
                &&& forall|o: int|
                    0 <= o < s.results.len() && (forall|j: int|
                        0 <= j < s.failed.len() ==> #[trigger] s.failed[j] != o)
                        ==> #[trigger] t.results[o] == s.results[o]
                &&& forall|j: int|
                    0 <= j < s.failed.len() ==> reports(
                        t.results[(#[trigger] s.failed[j]) as int],
                        s.failed[j] as int,
                        SpawnOutcome::Errored,
                        "child retry admission failed: "@ + error@,
                        None,
                    )
                &&& progress_shows(t.results, s.shown, t.shown)
            },
            RetryAdmission::Admitted { cancelled } => if cancelled {
                retry_admission_step(s, admission).cancelled && retry_admission_step(
                    s,
                    admission,
                ).phase == SpawnPhase::Teardown
            } else {
                retry_admission_step(s, admission) == (TransactionModel {
                    phase: SpawnPhase::RetryStarts,
                    ..s
                })
            },
        },
{
    if let RetryAdmission::Refused(error) = admission {
        lemma_refused(s, error@, s.failed.len() as int);
    }
}

proof fn lemma_restart(s: TransactionModel, starts: Seq<Result<String, String>>, k: int)
    requires
        transaction_inv(s),
        0 <= k <= s.failed.len(),
    ensures
        restart_results(s, starts, k).len() == s.results.len(),
        forall|o: int|
            0 <= o < s.results.len() && (forall|j: int|
                0 <= j < k ==> #[trigger] s.failed[j] != o) ==> #[trigger] restart_results(s, starts, k)[o]
                == s.results[o],
        forall|j: int|
            0 <= j < k ==> {
                let o = (#[trigger] s.failed[j]) as int;
                let now = restart_results(s, starts, k)[o];
                match starts[j] {
                    Ok(_) => now == s.results[o],
                    Err(error) => reports(
                        now,
                        o,
                        SpawnOutcome::Errored,
                        "child retry failed to start: "@ + error@,
                        None,
                    ),
                }
            },
    decreases k,
{
    if k > 0 {
        lemma_restart(s, starts, k - 1);
        let before = restart_results(s, starts, k - 1);
        let now = restart_results(s, starts, k);
        let last = s.failed[k - 1];
        assert forall|j: int| 0 <= j < k - 1 implies now[(#[trigger] s.failed[j]) as int]
            == before[s.failed[j] as int] by {
            assert(s.failed[j] < last);
        }
        assert forall|o: int|
            0 <= o < s.results.len() && (forall|j: int|
                0 <= j < k ==> #[trigger] s.failed[j] != o) implies #[trigger] now[o]
            == s.results[o] by {
            assert(last != o);
            assert(before[o] == s.results[o]);
        }
        assert(before[last as int] == s.results[last as int]) by {
            assert forall|j: int| 0 <= j < k - 1 implies #[trigger] s.failed[j] != last by {}
        }
    }
}

proof fn lemma_restarted_threads(s: TransactionModel, starts: Seq<Result<String, String>>, k: int)
    requires
        transaction_inv(s),
        0 <= k <= s.failed.len(),
    ensures
        restarted_threads(s, starts, k).len() == s.current.len(),
        forall|o: int|
            0 <= o < s.current.len() && (forall|j: int|
                0 <= j < k ==> #[trigger] s.failed[j] != o) ==> #[trigger] restarted_threads(s, starts, k)[o]
                == s.current[o],
        forall|j: int|
            0 <= j < k ==> {
                let o = (#[trigger] s.failed[j]) as int;
                let now = restarted_threads(s, starts, k)[o];
                match starts[j] {
                    Ok(thread) => now == Some(thread@),
                    Err(_) => now == s.current[o],
                }
            },
    decreases k,
{
    if k > 0 {
        lemma_restarted_threads(s, starts, k - 1);
        let before = restarted_threads(s, starts, k - 1);
        let now = restarted_threads(s, starts, k);
        let last = s.failed[k - 1];
        assert forall|j: int| 0 <= j < k - 1 implies now[(#[trigger] s.failed[j]) as int]
            == before[s.failed[j] as int] by {
            assert(s.failed[j] < last);
        }
        assert forall|o: int|
            0 <= o < s.current.len() && (forall|j: int|
                0 <= j < k ==> #[trigger] s.failed[j] != o) implies #[trigger] now[o]
            == s.current[o] by {
            assert(last != o);
            assert(before[o] == s.current[o]);
        }
        assert(before[last as int] == s.current[last as int]) by {
            assert forall|j: int| 0 <= j < k - 1 implies #[trigger] s.failed[j] != last by {}
        }
    }
}

proof fn lemma_restarted_shown(s: TransactionModel, starts: Seq<Result<String, String>>, k: int)
    requires
        transaction_inv(s),
        0 <= k <= s.failed.len(),
    ensures
        restarted_shown(s, starts, k).len() == s.shown_threads.len(),
        forall|o: int|
            0 <= o < s.shown_threads.len() && (forall|j: int|
                0 <= j < k ==> #[trigger] s.failed[j] != o) ==> #[trigger] restarted_shown(s, starts, k)[o]
                == s.shown_threads[o],
        forall|j: int|
            0 <= j < k ==> {
                let o = (#[trigger] s.failed[j]) as int;
                let now = restarted_shown(s, starts, k)[o];
                match starts[j] {
                    Ok(thread) => now == thread@,
                    Err(_) => now == s.shown_threads[o],
                }
            },
    decreases k,
{
    if k > 0 {
        lemma_restarted_shown(s, starts, k - 1);
        let before = restarted_shown(s, starts, k - 1);
        let now = restarted_shown(s, starts, k);
        let last = s.failed[k - 1];
        assert forall|j: int| 0 <= j < k - 1 implies now[(#[trigger] s.failed[j]) as int]
            == before[s.failed[j] as int] by {
            assert(s.failed[j] < last);
        }
        assert forall|o: int|
            0 <= o < s.shown_threads.len() && (forall|j: int|
                0 <= j < k ==> #[trigger] s.failed[j] != o) implies #[trigger] now[o]
            == s.shown_threads[o] by {
            assert(last != o);
            assert(before[o] == s.shown_threads[o]);
        }
        assert(before[last as int] == s.shown_threads[last as int]) by {
            assert forall|j: int| 0 <= j < k - 1 implies #[trigger] s.failed[j] != last by {}
        }
    }
}

proof fn lemma_restarted(s: TransactionModel, starts: Seq<Result<String, String>>, k: int)
    requires
        transaction_inv(s),
        0 <= k <= s.failed.len(),
    ensures
        forall|o: usize| #[trigger]
            restarted(s, starts, k).contains(o) <==> exists|j: int|
                0 <= j < k && #[trigger] s.failed[j] == o && starts[j] is Ok,
    decreases k,
{
    if k > 0 {
        lemma_restarted(s, starts, k - 1);
        let before = restarted(s, starts, k - 1);
        let now = restarted(s, starts, k);
        assert forall|o: usize| #[trigger]
            now.contains(o) <==> exists|j: int|
                0 <= j < k && #[trigger] s.failed[j] == o && starts[j] is Ok by {
            if before.contains(o) {
                let i = choose|i: int| 0 <= i < before.len() && before[i] == o;
                assert(now[i] == o);
            }
            if now.contains(o) {
                let i = choose|i: int| 0 <= i < now.len() && now[i] == o;
                if i < before.len() {
                    assert(before[i] == o);
                    assert(before.contains(o));
                } else {
                    assert(s.failed[k - 1] == o);
                }
            }
            if s.failed[k - 1] == o && starts[k - 1] is Ok {
                assert(now[before.len() as int] == o);
            }
        }
    }
}

/// A failed task that was started again has its new thread, which progress
/// shows, and is pending; one that was not reports why. All are kept only where
/// every start succeeded: one failure has the others undone.
pub proof fn new_starts_are_kept_together(s: TransactionModel, starts: Seq<Result<String, String>>)
    requires
        transaction_inv(s),
        starts.len() <= s.failed.len(),
    ensures
        ({
            let t = restarted_step(s, starts);
            &&& t == (TransactionModel {
                results: t.results,
                current: t.current,
                shown_threads: t.shown_threads,
                pending: t.pending,
                phase: t.phase,
                ..s
            })
            &&& t.phase == if forall|j: int| 0 <= j < starts.len() ==> #[trigger] starts[j] is Ok {
                SpawnPhase::RetryStatuses
            } else {
                SpawnPhase::RetryRollback
            }
            &&& forall|o: int|
                0 <= o < s.tasks.len() && (forall|j: int|
                    0 <= j < starts.len() ==> #[trigger] s.failed[j] != o)
                    ==> #[trigger] t.results[o] == s.results[o] && t.current[o] == s.current[o]
                    && t.shown_threads[o] == s.shown_threads[o]
            &&& forall|j: int|
                0 <= j < starts.len() ==> {
                    let o = (#[trigger] s.failed[j]) as int;
                    match starts[j] {
                        Ok(thread) => t.results[o] == s.results[o] && t.current[o] == Some(thread@)
                            && t.shown_threads[o] == thread@,
                        Err(error) => reports(
                            t.results[o],
                            o,
                            SpawnOutcome::Errored,
                            "child retry failed to start: "@ + error@,
                            None,
                        ) && t.current[o] == s.current[o] && t.shown_threads[o]
                            == s.shown_threads[o],
                    }
                }
            &&& forall|o: usize| #[trigger]
                t.pending.contains(o) <==> exists|j: int|
                    0 <= j < starts.len() && #[trigger] s.failed[j] == o && starts[j] is Ok
        }),
{
    let k = starts.len() as int;
    lemma_restart(s, starts, k);
    lemma_restarted_threads(s, starts, k);
    lemma_restarted_shown(s, starts, k);
    lemma_restarted(s, starts, k);
}

proof fn lemma_undone(s: TransactionModel, k: int)
    requires
        transaction_inv(s),
        0 <= k <= s.pending.len(),
    ensures
        undone_results(s, k).len() == s.results.len(),
        forall|o: int|
            0 <= o < s.results.len() && (forall|j: int|
                0 <= j < k ==> #[trigger] s.pending[j] != o) ==> #[trigger] undone_results(s, k)[o]
                == s.results[o],
        forall|j: int|
            0 <= j < k ==> {
                let o = (#[trigger] s.pending[j]) as int;
                let now = undone_results(s, k)[o];
                reports(
                    now,
                    o,
                    SpawnOutcome::Aborted,
                    "child retry aborted because another retry child failed to start"@,
                    Some(s.current[o]->0),
                )
            },
    decreases k,
{
    if k > 0 {
        lemma_undone(s, k - 1);
        let before = undone_results(s, k - 1);
        let now = undone_results(s, k);
        let last = s.pending[k - 1];
        assert forall|j: int| 0 <= j < k - 1 implies now[(#[trigger] s.pending[j]) as int]
            == before[s.pending[j] as int] by {
            assert(s.pending[j] < last);
        }
        assert forall|o: int|
            0 <= o < s.results.len() && (forall|j: int|
                0 <= j < k ==> #[trigger] s.pending[j] != o) implies #[trigger] now[o]
            == s.results[o] by {
            assert(last != o);
            assert(before[o] == s.results[o]);
        }
        assert(before[last as int] == s.results[last as int]) by {
            assert forall|j: int| 0 <= j < k - 1 implies #[trigger] s.pending[j] != last by {}
        }
    }
}

/// New starts that are undone are reported as aborted and lose their threads,
/// and the round is over with nothing to wait for; where that fails the
/// transaction ends with the error.
pub proof fn undone_starts_are_aborted(s: TransactionModel, error: Option<Seq<char>>)
    requires
        transaction_inv(s),
        !s.cancelled,
    ensures
        error is Some ==> rollback_step(s, error) == (TransactionModel {
            fatal: error,
            phase: SpawnPhase::Teardown,
            ..s
        }),
        error is None ==> {
            let t = rollback_step(s, error);
            &&& t == (TransactionModel {
                results: t.results,
                current: t.current,
                shown: t.shown,
                waits: t.waits,
                settled: t.settled,
                phase: SpawnPhase::Attempts,
                ..s
            })
            &&& t.waits.len() == 0 && t.settled.len() == 0
            &&& forall|o: int|
                0 <= o < s.tasks.len() && (forall|j: int|
                    0 <= j < s.pending.len() ==> #[trigger] s.pending[j] != o)
                    ==> #[trigger] t.results[o] == s.results[o] && t.current[o] == s.current[o]
            &&& forall|j: int|
                0 <= j < s.pending.len() ==> {
                    let o = (#[trigger] s.pending[j]) as int;
                    t.current[o] is None && reports(
                        t.results[o],
                        o,
                        SpawnOutcome::Aborted,
                        "child retry aborted because another retry child failed to start"@,
                        Some(s.current[o]->0),
                    )
                }
            &&& progress_shows(t.results, s.shown, t.shown)
        },
{
    lemma_undone(s, s.pending.len() as int);
    lemma_without_threads(s.current, s.pending, s.pending.len() as int);
}

proof fn lemma_cleared(s: TransactionModel, k: int)
    requires
        transaction_inv(s),
        0 <= k <= s.pending.len(),
    ensures
        cleared_results(s, k).len() == s.results.len(),
        forall|o: int|
            0 <= o < s.results.len() && (forall|j: int|
                0 <= j < k ==> #[trigger] s.pending[j] != o) ==> #[trigger] cleared_results(s, k)[o]
                == s.results[o],
        forall|j: int|
            0 <= j < k ==> {
                let o = (#[trigger] s.pending[j]) as int;
                let now = cleared_results(s, k)[o];
                now is None
            },
    decreases k,
{
    if k > 0 {
        lemma_cleared(s, k - 1);
        let before = cleared_results(s, k - 1);
        let now = cleared_results(s, k);
        let last = s.pending[k - 1];
        assert forall|j: int| 0 <= j < k - 1 implies now[(#[trigger] s.pending[j]) as int]
            == before[s.pending[j] as int] by {
            assert(s.pending[j] < last);
        }
        assert forall|o: int|
            0 <= o < s.results.len() && (forall|j: int|
                0 <= j < k ==> #[trigger] s.pending[j] != o) implies #[trigger] now[o]
            == s.results[o] by {
            assert(last != o);
            assert(before[o] == s.results[o]);
        }
        assert(before[last as int] == s.results[last as int]) by {
            assert forall|j: int| 0 <= j < k - 1 implies #[trigger] s.pending[j] != last by {}
        }
    }
}

proof fn lemma_restarted_statuses(s: TransactionModel, statuses: Seq<StatusModel>, k: int)
    requires
        transaction_inv(s),
        0 <= k <= s.pending.len(),
    ensures
        restarted_statuses(s, statuses, k).len() == s.shown.len(),
        forall|o: int|
            0 <= o < s.shown.len() && (forall|j: int|
                0 <= j < k ==> #[trigger] s.pending[j] != o) ==> #[trigger] restarted_statuses(s, statuses, k)[o]
                == s.shown[o],
        forall|j: int|
            0 <= j < k ==> {
                let o = (#[trigger] s.pending[j]) as int;
                let now = restarted_statuses(s, statuses, k)[o];
                if statuses[j] is PendingInit || statuses[j] is Running {
                    now == statuses[j]
                } else {
                    now is Completed || now is Errored || now is Shutdown
                }
            },
    decreases k,
{
    if k > 0 {
        lemma_restarted_statuses(s, statuses, k - 1);
        let before = restarted_statuses(s, statuses, k - 1);
        let now = restarted_statuses(s, statuses, k);
        let last = s.pending[k - 1];
        assert forall|j: int| 0 <= j < k - 1 implies now[(#[trigger] s.pending[j]) as int]
            == before[s.pending[j] as int] by {
            assert(s.pending[j] < last);
        }
        assert forall|o: int|
            0 <= o < s.shown.len() && (forall|j: int|
                0 <= j < k ==> #[trigger] s.pending[j] != o) implies #[trigger] now[o]
            == s.shown[o] by {
            assert(last != o);
            assert(before[o] == s.shown[o]);
        }
        assert(before[last as int] == s.shown[last as int]) by {
            assert forall|j: int| 0 <= j < k - 1 implies #[trigger] s.pending[j] != last by {}
        }
    }
}

/// Branches that were started again have no result, and are waited for in their
/// new threads; progress shows their first statuses.
pub proof fn new_starts_are_waited_for(s: TransactionModel, statuses: Seq<StatusModel>)
    requires
        transaction_inv(s),
        statuses.len() == s.pending.len(),
    ensures
        ({
            let t = retry_statuses_step(s, statuses);
            &&& t == (TransactionModel {
                results: t.results,
                shown: t.shown,
                waits: t.waits,
                settled: t.settled,
                phase: SpawnPhase::Attempts,
                ..s
            })
            &&& t.waits.len() == s.pending.len() && t.settled.len() == s.pending.len()
            &&& forall|o: int|
                0 <= o < s.tasks.len() && (forall|j: int|
                    0 <= j < s.pending.len() ==> #[trigger] s.pending[j] != o)
                    ==> #[trigger] t.results[o] == s.results[o] && t.shown[o] == s.shown[o]
            &&& forall|j: int|
                0 <= j < s.pending.len() ==> {
                    let o = (#[trigger] s.pending[j]) as int;
                    &&& t.results[o] is None
                    &&& t.waits[j].ordinal == s.pending[j] && !t.waits[j].resumed
                    &&& t.waits[j].thread == s.current[o]->0
                    &&& t.settled[j] is None
                    &&& if statuses[j] is PendingInit || statuses[j] is Running {
                        t.shown[o] == statuses[j]
                    } else {
                        t.shown[o] is Completed || t.shown[o] is Errored || t.shown[o] is Shutdown
                    }
                }
        }),
{
    lemma_cleared(s, s.pending.len() as int);
    lemma_restarted_statuses(s, statuses, s.pending.len() as int);
}

/// The final teardown stops every thread that there is, in task order, and a new
/// start is preceded by a teardown of every failed branch that has a thread.
pub proof fn every_thread_is_stopped(s: TransactionModel, o: int)
    requires
        transaction_inv(s),
        0 <= o < s.current.len(),
        s.current[o] is Some,
    ensures
        present(s.current).contains(s.current[o]->0),
        s.failed.contains(o as usize) && o <= usize::MAX ==> available_threads(
            s,
            s.failed.len() as int,
        ).contains(s.current[o]->0),
{
    lemma_present(s.current, o);
    if s.failed.contains(o as usize) && o <= usize::MAX {
        let k = choose|k: int| 0 <= k < s.failed.len() && s.failed[k] == o as usize;
        lemma_available_thread(s, k, s.failed.len() as int);
    }
}

/// No thread is stopped but those of the tasks.
pub proof fn only_its_threads_are_stopped(s: TransactionModel, i: int)
    requires
        transaction_inv(s),
    ensures
        0 <= i < present(s.current).len() ==> s.current.contains(Some(present(s.current)[i])),
        0 <= i < available_threads(s, s.failed.len() as int).len() ==> exists|k: int|
            0 <= k < s.failed.len() && s.current[(#[trigger] s.failed[k]) as int] == Some(
                available_threads(s, s.failed.len() as int)[i],
            ),
{
    if 0 <= i < present(s.current).len() {
        lemma_only_present(s.current, i);
    }
    if 0 <= i < available_threads(s, s.failed.len() as int).len() {
        lemma_only_available(s, s.failed.len() as int, i);
    }
}

proof fn lemma_present(values: Seq<Option<Seq<char>>>, o: int)
    requires
        0 <= o < values.len(),
        values[o] is Some,
    ensures
        present(values).contains(values[o]->0),
    decreases values.len(),
{
    let rest = values.drop_last();
    let before = present(rest);
    if o < values.len() - 1 {
        assert(rest[o] == values[o]);
        lemma_present(rest, o);
        let i = choose|i: int| 0 <= i < before.len() && before[i] == values[o]->0;
        assert(present(values)[i] == values[o]->0);
    } else {
        assert(present(values)[before.len() as int] == values[o]->0);
    }
}

proof fn lemma_only_present(values: Seq<Option<Seq<char>>>, i: int)
    requires
        0 <= i < present(values).len(),
    ensures
        values.contains(Some(present(values)[i])),
    decreases values.len(),
{
    let rest = values.drop_last();
    if i < present(rest).len() {
        lemma_only_present(rest, i);
        let o = choose|o: int| 0 <= o < rest.len() && rest[o] == Some(present(rest)[i]);
        assert(values[o] == Some(present(values)[i]));
    } else {
        assert(values[values.len() - 1] == Some(present(values)[i]));
    }
}

proof fn lemma_available_thread(s: TransactionModel, j: int, k: int)
    requires
        0 <= j < k <= s.failed.len(),
        s.current[s.failed[j] as int] is Some,
    ensures
        available_threads(s, k).contains(s.current[s.failed[j] as int]->0),
    decreases k,
{
    let thread = s.current[s.failed[j] as int]->0;
    let before = available_threads(s, k - 1);
    if j < k - 1 {
        lemma_available_thread(s, j, k - 1);
        let i = choose|i: int| 0 <= i < before.len() && before[i] == thread;
        assert(available_threads(s, k)[i] == thread);
    } else {
        assert(available_threads(s, k)[before.len() as int] == thread);
    }
}

proof fn lemma_only_available(s: TransactionModel, k: int, i: int)
    requires
        0 <= k <= s.failed.len(),
        0 <= i < available_threads(s, k).len(),
    ensures
        exists|j: int|
            0 <= j < k && s.current[(#[trigger] s.failed[j]) as int] == Some(
                available_threads(s, k)[i],
            ),
    decreases k,
{
    if i < available_threads(s, k - 1).len() {
        lemma_only_available(s, k - 1, i);
    } else {
        assert(s.current[s.failed[k - 1] as int] == Some(available_threads(s, k)[i]));
    }
}

/// A transaction fails with the error that ended it, or else with that of the
/// final teardown, or else where the question was dismissed; only a transaction
/// with none of these has a receipt, which holds every result that there is.
pub proof fn a_receipt_is_given_only_after_a_clean_end(
    s: TransactionModel,
    teardown: Option<Seq<char>>,
)
    ensures
        verdict(s, teardown) is Ok <==> s.fatal is None && teardown is None && !s.gate_cancelled,
        s.fatal is Some && teardown is None ==> verdict(s, teardown) == Err::<
            Seq<ResultModel>,
            Seq<char>,
        >(s.fatal->0),
        s.fatal matches Some(error) ==> (teardown matches Some(cleanup) ==> verdict(s, teardown)
            == Err::<Seq<ResultModel>, Seq<char>>(error + "; cleanup failed: "@ + cleanup)),
        s.fatal is None ==> (teardown matches Some(error) ==> verdict(s, teardown) == Err::<
            Seq<ResultModel>,
            Seq<char>,
        >(error)),
        s.fatal is None && teardown is None && s.gate_cancelled ==> verdict(s, teardown) == Err::<
            Seq<ResultModel>,
            Seq<char>,
        >("spine.spawn failure gate was cancelled without a selection"@),
        verdict(s, teardown) matches Ok(results) ==> {
            &&& results.len() == s.results.len()
            &&& forall|o: int|
                0 <= o < results.len() && (#[trigger] s.results[o]) is Some ==> results[o]
                    == s.results[o]->0
        },
{
}

/// A failed branch may start again only under the path that it had.
pub proof fn a_new_start_keeps_its_path(source: Result<Option<String>, String>, path: String)
    ensures
        retry_path_error(source, path) is None <==> (source matches Ok(Some(found)) && found@
            == path@),
        source matches Err(error) ==> retry_path_error(source, path) == Some(error@),
        source == Ok::<Option<String>, String>(None) ==> retry_path_error(source, path) == Some(
            "spine.spawn retry child is missing an agent path"@,
        ),
        source matches Ok(Some(found)) ==> found@ != path@ ==> retry_path_error(source, path)
            == Some("spine.spawn retry changed a child agent path"@),
{
}

} // verus!
