//! Laws of a spawn transaction, over the steps that its contracts name.

use vstd::prelude::*;

verus! {

use crate::spawn::{status_result, ResultModel, SpawnTask, StatusModel};
use crate::spawn_gate::{asks_user, SpawnFailureAction};
use crate::spawn_transaction::{
    available, begun, cancel_step, cancelled_results, cleared_results, completed_step,
    continued_results, continued_step, cut_short, failures, finishing, gate_step, handles_pending,
    ordinals_below, refused_results, reported_results, reserved_step, restart_results, restarted,
    restarted_step, resumed_waits, retry_admission_step, retry_statuses_step, retry_teardown_step,
    rollback_step, settle_step, settled_results, subscribed_step, transaction_inv,
    unavailable_results, undone_results, unhindered, verdict, GateAnswer, RetryAdmission,
    SpawnPhase, TransactionModel,
};
use crate::text::blank;

/// What a driver may report to a transaction.
pub ghost enum TransactionEvent {
    AttemptSettled { k: int, status: StatusModel },
    AttemptsCompleted,
    AttemptsCancelled { statuses: Seq<StatusModel> },
    GateAnswered { answer: GateAnswer },
    Subscribed { outcomes: Seq<Option<Seq<char>>> },
    Reserved { error: Option<Seq<char>> },
    ContinuationsSent { outcomes: Seq<Option<Seq<char>>> },
    RetryTornDown { error: Option<Seq<char>>, cancelled: bool },
    RetryAdmitted { admission: RetryAdmission },
    RetryStarted { starts: Seq<Result<String, String>> },
    RetryRolledBack { error: Option<Seq<char>> },
    RetryStatuses { statuses: Seq<StatusModel> },
}

/// Whether the transaction is in the phase that an event reports on.
pub open spec fn enabled(s: TransactionModel, event: TransactionEvent) -> bool {
    match event {
        TransactionEvent::AttemptSettled { k, .. } => s.phase is Attempts && 0 <= k < s.waits.len(),
        TransactionEvent::AttemptsCompleted => s.phase is Attempts && forall|k: int|
            0 <= k < s.settled.len() ==> #[trigger] s.settled[k] is Some,
        TransactionEvent::AttemptsCancelled { statuses } => s.phase is Attempts && statuses.len()
            == s.waits.len(),
        TransactionEvent::GateAnswered { .. } => s.phase is Gate,
        TransactionEvent::Subscribed { outcomes } => s.phase is Subscriptions && outcomes.len()
            == s.pending.len(),
        TransactionEvent::Reserved { .. } => s.phase is Reservation,
        TransactionEvent::ContinuationsSent { outcomes } => s.phase is Continuations
            && outcomes.len() == s.pending.len(),
        TransactionEvent::RetryTornDown { .. } => s.phase is RetryTeardown,
        TransactionEvent::RetryAdmitted { .. } => s.phase is RetryAdmission,
        TransactionEvent::RetryStarted { starts } => s.phase is RetryStarts && starts.len()
            <= s.failed.len(),
        TransactionEvent::RetryRolledBack { .. } => s.phase is RetryRollback,
        TransactionEvent::RetryStatuses { statuses } => s.phase is RetryStatuses && statuses.len()
            == s.pending.len(),
    }
}

/// The state after an event.
pub open spec fn after(s: TransactionModel, event: TransactionEvent) -> TransactionModel {
    match event {
        TransactionEvent::AttemptSettled { k, status } => settle_step(s, k, status),
        TransactionEvent::AttemptsCompleted => completed_step(s),
        TransactionEvent::AttemptsCancelled { statuses } => cancel_step(s, statuses),
        TransactionEvent::GateAnswered { answer } => gate_step(s, answer),
        TransactionEvent::Subscribed { outcomes } => subscribed_step(s, outcomes),
        TransactionEvent::Reserved { error } => reserved_step(s, error),
        TransactionEvent::ContinuationsSent { outcomes } => continued_step(s, outcomes),
        TransactionEvent::RetryTornDown { error, cancelled } => retry_teardown_step(
            s,
            error,
            cancelled,
        ),
        TransactionEvent::RetryAdmitted { admission } => retry_admission_step(s, admission),
        TransactionEvent::RetryStarted { starts } => restarted_step(s, starts),
        TransactionEvent::RetryRolledBack { error } => rollback_step(s, error),
        TransactionEvent::RetryStatuses { statuses } => retry_statuses_step(s, statuses),
    }
}

/// Whether a task has completed.
pub open spec fn completed(results: Seq<Option<ResultModel>>, o: int) -> bool {
    results[o] matches Some(result) && result.outcome is Completed
}

/// Whether every result names its own task.
pub open spec fn numbered(results: Seq<Option<ResultModel>>) -> bool {
    forall|o: int|
        0 <= o < results.len() ==> (#[trigger] results[o] matches Some(result) ==> result.ordinal
            == o as u32)
}

/// Whether none of the given tasks has completed.
pub open spec fn none_completed(results: Seq<Option<ResultModel>>, ordinals: Seq<usize>) -> bool {
    forall|k: int| 0 <= k < ordinals.len() ==> !completed(results, (#[trigger] ordinals[k]) as int)
}

/// Whether the phase belongs to a round over the failed tasks.
pub open spec fn in_round(phase: SpawnPhase) -> bool {
    !(phase is Attempts) && !(phase is Teardown)
}

/// What holds of every transaction that a driver can bring about.
pub open spec fn course(s: TransactionModel) -> bool {
    &&& transaction_inv(s)
    &&& s.tasks.len() <= usize::MAX
    &&& numbered(s.results)
    &&& forall|k: int|
        0 <= k < s.settled.len() ==> (#[trigger] s.settled[k] matches Some(result)
            ==> result.ordinal == s.waits[k].ordinal as u32)
    &&& s.phase is Attempts ==> forall|k: int|
        0 <= k < s.waits.len() ==> !completed(s.results, (#[trigger] s.waits[k]).ordinal as int)
    &&& in_round(s.phase) ==> none_completed(s.results, s.failed)
    &&& handles_pending(s.phase) ==> none_completed(s.results, s.pending)
}

/// A change of results that leaves completed ones alone and keeps the numbering.
pub open spec fn keeps(a: Seq<Option<ResultModel>>, b: Seq<Option<ResultModel>>) -> bool {
    &&& b.len() == a.len()
    &&& numbered(a) ==> numbered(b)
    &&& forall|o: int| 0 <= o < a.len() && #[trigger] completed(a, o) ==> b[o] == a[o]
}

/// A change that completes nothing new.
pub open spec fn completes_nothing(
    a: Seq<Option<ResultModel>>,
    b: Seq<Option<ResultModel>>,
) -> bool {
    forall|o: int| 0 <= o < a.len() && !completed(a, o) ==> !(#[trigger] completed(b, o))
}

proof fn lemma_update(a: Seq<Option<ResultModel>>, o: int, x: Option<ResultModel>)
    requires
        0 <= o < a.len(),
        !completed(a, o),
        x matches Some(result) ==> result.ordinal == o as u32,
    ensures
        keeps(a, a.update(o, x)),
        !(x matches Some(result) && result.outcome is Completed) ==> completes_nothing(
            a,
            a.update(o, x),
        ),
{
    let b = a.update(o, x);
    if numbered(a) {
        assert forall|p: int| 0 <= p < b.len() implies (#[trigger] b[p] matches Some(result)
            ==> result.ordinal == p as u32) by {
            if p != o {
                assert(b[p] == a[p]);
            }
        }
    }
    assert forall|p: int| 0 <= p < a.len() && #[trigger] completed(a, p) implies b[p] == a[p] by {}
    if !(x matches Some(result) && result.outcome is Completed) {
        assert forall|p: int| 0 <= p < a.len() && !completed(a, p) implies !(#[trigger] completed(
            b,
            p,
        )) by {
            if p != o {
                assert(b[p] == a[p]);
            }
        }
    }
}

proof fn lemma_trans(
    a: Seq<Option<ResultModel>>,
    b: Seq<Option<ResultModel>>,
    c: Seq<Option<ResultModel>>,
)
    requires
        keeps(a, b),
        completes_nothing(a, b),
        keeps(b, c),
        completes_nothing(b, c),
    ensures
        keeps(a, c),
        completes_nothing(a, c),
{
    assert forall|o: int| 0 <= o < a.len() && #[trigger] completed(a, o) implies c[o] == a[o] by {
        assert(b[o] == a[o]);
        assert(completed(b, o));
    }
    assert forall|o: int| 0 <= o < a.len() && !completed(a, o) implies !(#[trigger] completed(
        c,
        o,
    )) by {
        assert(!completed(b, o));
    }
}

proof fn lemma_same(a: Seq<Option<ResultModel>>)
    ensures
        keeps(a, a),
        completes_nothing(a, a),
{
}

proof fn lemma_one(
    a: Seq<Option<ResultModel>>,
    b: Seq<Option<ResultModel>>,
    o: int,
    x: Option<ResultModel>,
)
    requires
        keeps(a, b),
        completes_nothing(a, b),
        0 <= o < a.len(),
        !completed(a, o),
        x matches Some(result) ==> result.ordinal == o as u32 && !(result.outcome is Completed),
    ensures
        keeps(a, b.update(o, x)),
        completes_nothing(a, b.update(o, x)),
{
    assert(!completed(b, o));
    lemma_update(b, o, x);
    lemma_trans(a, b, b.update(o, x));
}

proof fn lemma_settled(s: TransactionModel, k: int)
    requires
        course(s),
        s.phase is Attempts,
        0 <= k <= s.waits.len(),
    ensures
        keeps(s.results, settled_results(s, k)),
    decreases k,
{
    if k > 0 {
        lemma_settled(s, k - 1);
        let before = settled_results(s, k - 1);
        let o = s.waits[k - 1].ordinal as int;
        let x = s.settled[k - 1];
        let now = before.update(o, x);
        assert(!completed(s.results, o));
        assert forall|p: int|
            0 <= p < s.results.len() && #[trigger] completed(s.results, p) implies now[p]
            == s.results[p] by {
            assert(p != o);
            assert(before[p] == s.results[p]);
        }
        if numbered(s.results) {
            assert forall|p: int| 0 <= p < now.len() implies (#[trigger] now[p] matches Some(
                result,
            ) ==> result.ordinal == p as u32) by {
                if p != o {
                    assert(now[p] == before[p]);
                }
            }
        }
    }
}

proof fn lemma_cancelled(s: TransactionModel, statuses: Seq<StatusModel>, k: int)
    requires
        course(s),
        s.phase is Attempts,
        statuses.len() == s.waits.len(),
        0 <= k <= s.waits.len(),
    ensures
        keeps(s.results, cancelled_results(s, statuses, k)),
    decreases k,
{
    if k > 0 {
        lemma_cancelled(s, statuses, k - 1);
        let before = cancelled_results(s, statuses, k - 1);
        let o = s.waits[k - 1].ordinal as int;
        let x = Some(cut_short(s.waits[k - 1], statuses[k - 1]));
        let now = before.update(o, x);
        assert(!completed(s.results, o));
        assert forall|p: int|
            0 <= p < s.results.len() && #[trigger] completed(s.results, p) implies now[p]
            == s.results[p] by {
            assert(p != o);
            assert(before[p] == s.results[p]);
        }
        assert forall|p: int| 0 <= p < now.len() implies (#[trigger] now[p] matches Some(result)
            ==> result.ordinal == p as u32) by {
            if p != o {
                assert(now[p] == before[p]);
            }
        }
    }
}

proof fn lemma_finishing(s: TransactionModel)
    requires
        s.tasks.len() <= usize::MAX,
        s.results.len() == s.tasks.len(),
    ensures
        keeps(s.results, finishing(s).results),
{
    let t = finishing(s);
    if numbered(s.results) {
        assert forall|o: int| 0 <= o < t.results.len() implies (#[trigger] t.results[o] matches Some(
            result,
        ) ==> result.ordinal == o as u32) by {
            assert(s.results[o] matches Some(result) ==> result.ordinal == o as u32);
        }
    }
    assert forall|o: int|
        0 <= o < s.results.len() && #[trigger] completed(s.results, o) implies t.results[o]
        == s.results[o] by {}
}

proof fn lemma_unavailable(s: TransactionModel, k: int)
    requires
        transaction_inv(s),
        none_completed(s.results, s.failed),
        0 <= k <= s.failed.len(),
    ensures
        keeps(s.results, unavailable_results(s, k)),
        completes_nothing(s.results, unavailable_results(s, k)),
    decreases k,
{
    if k > 0 {
        lemma_unavailable(s, k - 1);
        let o = s.failed[k - 1];
        assert(!completed(s.results, o as int));
        if s.current[o as int] is None {
            lemma_one(
                s.results,
                unavailable_results(s, k - 1),
                o as int,
                Some(crate::spawn_transaction::unavailable(o)),
            );
        }
    } else {
        lemma_same(s.results);
    }
}

proof fn lemma_available(s: TransactionModel, k: int)
    requires
        transaction_inv(s),
        0 <= k <= s.failed.len(),
    ensures
        none_completed(s.results, s.failed) ==> none_completed(s.results, available(s, k)),
        ordinals_below(available(s, k), s.tasks.len()),
        crate::spawn_transaction::have_threads(available(s, k), s.current),
        forall|j: int|
            0 <= j < available(s, k).len() && k < s.failed.len() ==> (#[trigger] available(s, k)[j])
                < s.failed[k],
    decreases k,
{
    if k > 0 {
        lemma_available(s, k - 1);
        if none_completed(s.results, s.failed) {
            assert forall|j: int| 0 <= j < available(s, k).len() implies !completed(
                s.results,
                (#[trigger] available(s, k)[j]) as int,
            ) by {
                assert(!completed(s.results, s.failed[k - 1] as int));
                if j < available(s, k - 1).len() {
                    assert(available(s, k)[j] == available(s, k - 1)[j]);
                }
            }
        }
    }
}

proof fn lemma_reported(
    s: TransactionModel,
    prefix: Seq<char>,
    outcomes: Seq<Option<Seq<char>>>,
    k: int,
)
    requires
        transaction_inv(s),
        none_completed(s.results, s.pending),
        0 <= k <= s.pending.len(),
    ensures
        keeps(s.results, reported_results(s, prefix, outcomes, k)),
        completes_nothing(s.results, reported_results(s, prefix, outcomes, k)),
    decreases k,
{
    if k > 0 {
        lemma_reported(s, prefix, outcomes, k - 1);
        let o = s.pending[k - 1];
        assert(!completed(s.results, o as int));
        if outcomes[k - 1] is Some {
            lemma_one(
                s.results,
                reported_results(s, prefix, outcomes, k - 1),
                o as int,
                reported_results(s, prefix, outcomes, k)[o as int],
            );
        }
    } else {
        lemma_same(s.results);
    }
}

proof fn lemma_unhindered(s: TransactionModel, outcomes: Seq<Option<Seq<char>>>, k: int)
    requires
        transaction_inv(s),
        crate::spawn_transaction::have_threads(s.pending, s.current),
        0 <= k <= s.pending.len(),
    ensures
        none_completed(s.results, s.pending) ==> none_completed(
            s.results,
            unhindered(s, outcomes, k),
        ),
        ordinals_below(unhindered(s, outcomes, k), s.tasks.len()),
        crate::spawn_transaction::have_threads(unhindered(s, outcomes, k), s.current),
        forall|j: int|
            0 <= j < unhindered(s, outcomes, k).len() && k < s.pending.len() ==> (
            #[trigger] unhindered(s, outcomes, k)[j]) < s.pending[k],
    decreases k,
{
    if k > 0 {
        lemma_unhindered(s, outcomes, k - 1);
        let now = unhindered(s, outcomes, k);
        let before = unhindered(s, outcomes, k - 1);
        assert(s.current[s.pending[k - 1] as int] is Some);
        if none_completed(s.results, s.pending) {
            assert forall|j: int| 0 <= j < now.len() implies !completed(
                s.results,
                (#[trigger] now[j]) as int,
            ) by {
                assert(!completed(s.results, s.pending[k - 1] as int));
                if j < before.len() {
                    assert(now[j] == before[j]);
                }
            }
        }
    }
}

proof fn lemma_continued(s: TransactionModel, outcomes: Seq<Option<Seq<char>>>, k: int)
    requires
        transaction_inv(s),
        none_completed(s.results, s.pending),
        0 <= k <= s.pending.len(),
    ensures
        keeps(s.results, continued_results(s, outcomes, k)),
        completes_nothing(s.results, continued_results(s, outcomes, k)),
        forall|j: int|
            0 <= j < resumed_waits(s, outcomes, k).len() ==> {
                let o = (#[trigger] resumed_waits(s, outcomes, k)[j]).ordinal;
                o < s.tasks.len() && !completed(s.results, o as int)
            },
    decreases k,
{
    if k > 0 {
        lemma_continued(s, outcomes, k - 1);
        let o = s.pending[k - 1];
        assert(!completed(s.results, o as int));
        lemma_one(
            s.results,
            continued_results(s, outcomes, k - 1),
            o as int,
            continued_results(s, outcomes, k)[o as int],
        );
        let before = resumed_waits(s, outcomes, k - 1);
        let now = resumed_waits(s, outcomes, k);
        assert forall|j: int| 0 <= j < now.len() implies ({
            let p = (#[trigger] now[j]).ordinal;
            p < s.tasks.len() && !completed(s.results, p as int)
        }) by {
            if j < before.len() {
                assert(now[j] == before[j]);
            }
        }
    } else {
        lemma_same(s.results);
    }
}

proof fn lemma_continued_statuses_len(
    s: TransactionModel,
    results: Seq<Option<ResultModel>>,
    k: int,
)
    requires
        transaction_inv(s),
        0 <= k <= s.failed.len(),
    ensures
        crate::spawn_transaction::continued_statuses(s, results, k).len() == s.shown.len(),
    decreases k,
{
    if k > 0 {
        lemma_continued_statuses_len(s, results, k - 1);
    }
}

proof fn lemma_without_threads_len(
    current: Seq<Option<Seq<char>>>,
    ordinals: Seq<usize>,
    k: int,
)
    requires
        0 <= k <= ordinals.len(),
        ordinals_below(ordinals, current.len()),
    ensures
        crate::spawn_transaction::without_threads(current, ordinals, k).len() == current.len(),
    decreases k,
{
    if k > 0 {
        lemma_without_threads_len(current, ordinals, k - 1);
    }
}

proof fn lemma_refused(s: TransactionModel, error: Seq<char>, k: int)
    requires
        transaction_inv(s),
        none_completed(s.results, s.failed),
        0 <= k <= s.failed.len(),
    ensures
        keeps(s.results, refused_results(s, error, k)),
        completes_nothing(s.results, refused_results(s, error, k)),
    decreases k,
{
    if k > 0 {
        lemma_refused(s, error, k - 1);
        let o = s.failed[k - 1];
        assert(!completed(s.results, o as int));
        lemma_one(
            s.results,
            refused_results(s, error, k - 1),
            o as int,
            refused_results(s, error, k)[o as int],
        );
    } else {
        lemma_same(s.results);
    }
}

proof fn lemma_restart(s: TransactionModel, starts: Seq<Result<String, String>>, k: int)
    requires
        transaction_inv(s),
        none_completed(s.results, s.failed),
        0 <= k <= starts.len() <= s.failed.len(),
    ensures
        keeps(s.results, restart_results(s, starts, k)),
        completes_nothing(s.results, restart_results(s, starts, k)),
        none_completed(s.results, restarted(s, starts, k)),
        ordinals_below(restarted(s, starts, k), s.tasks.len()),
        crate::spawn_transaction::restarted_threads(s, starts, k).len() == s.current.len(),
        crate::spawn_transaction::restarted_shown(s, starts, k).len() == s.shown_threads.len(),
        crate::spawn_transaction::have_threads(
            restarted(s, starts, k),
            crate::spawn_transaction::restarted_threads(s, starts, k),
        ),
        forall|j: int|
            0 <= j < restarted(s, starts, k).len() && k < s.failed.len() ==> (#[trigger] restarted(
                s,
                starts,
                k,
            )[j]) < s.failed[k],
    decreases k,
{
    if k > 0 {
        lemma_restart(s, starts, k - 1);
        let o = s.failed[k - 1];
        assert(!completed(s.results, o as int));
        let before = restarted(s, starts, k - 1);
        let now = restarted(s, starts, k);
        let threads = crate::spawn_transaction::restarted_threads(s, starts, k - 1);
        let threads_now = crate::spawn_transaction::restarted_threads(s, starts, k);
        if starts[k - 1] is Err {
            lemma_one(
                s.results,
                restart_results(s, starts, k - 1),
                o as int,
                restart_results(s, starts, k)[o as int],
            );
        }
        assert forall|j: int| 0 <= j < now.len() implies !completed(
            s.results,
            (#[trigger] now[j]) as int,
        ) by {
            if j < before.len() {
                assert(now[j] == before[j]);
            }
        }
        assert forall|j: int| 0 <= j < now.len() implies threads_now[(#[trigger] now[j]) as int]
            is Some by {
            if j < before.len() {
                assert(now[j] == before[j]);
                assert(threads[before[j] as int] is Some);
            }
        }
    } else {
        lemma_same(s.results);
    }
}

proof fn lemma_undone(s: TransactionModel, k: int)
    requires
        transaction_inv(s),
        none_completed(s.results, s.pending),
        0 <= k <= s.pending.len(),
    ensures
        keeps(s.results, undone_results(s, k)),
        completes_nothing(s.results, undone_results(s, k)),
    decreases k,
{
    if k > 0 {
        lemma_undone(s, k - 1);
        let o = s.pending[k - 1];
        assert(!completed(s.results, o as int));
        lemma_one(
            s.results,
            undone_results(s, k - 1),
            o as int,
            undone_results(s, k)[o as int],
        );
    } else {
        lemma_same(s.results);
    }
}

proof fn lemma_cleared(s: TransactionModel, statuses: Seq<StatusModel>, k: int)
    requires
        transaction_inv(s),
        none_completed(s.results, s.pending),
        0 <= k <= s.pending.len(),
    ensures
        keeps(s.results, cleared_results(s, k)),
        completes_nothing(s.results, cleared_results(s, k)),
        crate::spawn_transaction::restarted_statuses(s, statuses, k).len() == s.shown.len(),
    decreases k,
{
    if k > 0 {
        lemma_cleared(s, statuses, k - 1);
        let o = s.pending[k - 1];
        assert(!completed(s.results, o as int));
        lemma_one(s.results, cleared_results(s, k - 1), o as int, None);
    } else {
        lemma_same(s.results);
    }
}

proof fn lemma_failures_not_completed(results: Seq<Option<ResultModel>>)
    requires
        results.len() <= usize::MAX,
    ensures
        ordinals_below(failures(results), results.len()),
        none_completed(results, failures(results)),
    decreases results.len(),
{
    if results.len() > 0 {
        let head = results.drop_last();
        lemma_failures_not_completed(head);
        assert forall|k: int| 0 <= k < failures(results).len() implies !completed(
            results,
            (#[trigger] failures(results)[k]) as int,
        ) by {
            if k < failures(head).len() {
                let o = failures(head)[k] as int;
                assert(failures(results)[k] == failures(head)[k]);
                assert(!completed(head, o));
                assert(head[o] == results[o]);
            }
        }
    }
}

proof fn lemma_none_completed(
    a: Seq<Option<ResultModel>>,
    b: Seq<Option<ResultModel>>,
    ordinals: Seq<usize>,
)
    requires
        completes_nothing(a, b),
        none_completed(a, ordinals),
        ordinals_below(ordinals, a.len()),
    ensures
        none_completed(b, ordinals),
{
    assert forall|k: int| 0 <= k < ordinals.len() implies !completed(
        b,
        (#[trigger] ordinals[k]) as int,
    ) by {
        assert(!completed(a, ordinals[k] as int));
    }
}

/// A transaction begins on its course.
pub proof fn a_transaction_begins_on_course(
    call_id: Seq<char>,
    tasks: Seq<SpawnTask>,
    child_paths: Seq<String>,
    gate_enabled: bool,
    threads: Seq<Seq<char>>,
    statuses: Seq<StatusModel>,
)
    requires
        tasks.len() <= usize::MAX,
        child_paths.len() == tasks.len(),
        threads.len() == tasks.len(),
        statuses.len() == tasks.len(),
    ensures
        course(begun(call_id, tasks, child_paths, gate_enabled, threads, statuses)),
{
}

/// The state after some events.
pub open spec fn after_events(s: TransactionModel, events: Seq<TransactionEvent>) -> TransactionModel
    decreases events.len(),
{
    if events.len() == 0 {
        s
    } else {
        after(after_events(s, events.drop_last()), events.last())
    }
}

/// Whether events can be reported one after the other.
pub open spec fn all_enabled(s: TransactionModel, events: Seq<TransactionEvent>) -> bool
    decreases events.len(),
{
    events.len() > 0 ==> all_enabled(s, events.drop_last()) && enabled(
        after_events(s, events.drop_last()),
        events.last(),
    )
}

/// Only the root agent's failures are put to the user: a transaction of any
/// other agent waits for its branches and is torn down, whatever comes of them.
pub proof fn only_the_root_agent_asks(
    call_id: Seq<char>,
    tasks: Seq<SpawnTask>,
    child_paths: Seq<String>,
    parent_path: Option<Seq<char>>,
    root_path: Seq<char>,
    threads: Seq<Seq<char>>,
    statuses: Seq<StatusModel>,
    events: Seq<TransactionEvent>,
)
    requires
        parent_path matches Some(path) && path != root_path,
        all_enabled(
            begun(
                call_id,
                tasks,
                child_paths,
                asks_user(parent_path, root_path),
                threads,
                statuses,
            ),
            events,
        ),
    ensures
        ({
            let s = after_events(
                begun(
                    call_id,
                    tasks,
                    child_paths,
                    asks_user(parent_path, root_path),
                    threads,
                    statuses,
                ),
                events,
            );
            !s.gate_enabled && (s.phase is Attempts || s.phase is Teardown)
        }),
    decreases events.len(),
{
    if events.len() > 0 {
        only_the_root_agent_asks(
            call_id,
            tasks,
            child_paths,
            parent_path,
            root_path,
            threads,
            statuses,
            events.drop_last(),
        );
    }
}

/// Whatever is reported to a transaction on its course: it stays on its
/// course, and a task that has completed keeps its result.
#[verifier::rlimit(60)]
#[verifier::spinoff_prover]
pub proof fn completed_results_survive(s: TransactionModel, event: TransactionEvent)
    requires
        course(s),
        enabled(s, event),
    ensures
        course(after(s, event)),
        after(s, event).tasks == s.tasks,
        forall|o: int|
            0 <= o < s.results.len() && #[trigger] completed(s.results, o) ==> after(
                s,
                event,
            ).results[o] == s.results[o],
{
    let t = after(s, event);
    match event {
        TransactionEvent::AttemptSettled { k, status } => {
            lemma_same(s.results);
        },
        TransactionEvent::AttemptsCompleted => {
            let results = settled_results(s, s.waits.len() as int);
            lemma_settled(s, s.waits.len() as int);
            lemma_failures_not_completed(results);
            let mid = TransactionModel { results, failed: failures(results), ..s };
            lemma_finishing(mid);
            if t.phase is Teardown {
                lemma_chain(s.results, results, t.results);
            }
        },
        TransactionEvent::AttemptsCancelled { statuses } => {
            let results = cancelled_results(s, statuses, s.waits.len() as int);
            lemma_cancelled(s, statuses, s.waits.len() as int);
            let mid = TransactionModel { results, cancelled: true, ..s };
            lemma_finishing(mid);
            lemma_chain(s.results, results, t.results);
        },
        TransactionEvent::GateAnswered { answer } => {
            lemma_gate(s, answer);
        },
        TransactionEvent::Subscribed { outcomes } => {
            let n = s.pending.len() as int;
            lemma_reported(s, "child cannot continue: "@, outcomes, n);
            lemma_unhindered(s, outcomes, n);
            lemma_none_completed(s.results, t.results, s.failed);
            lemma_none_completed(s.results, t.results, t.pending);
        },
        TransactionEvent::Reserved { error } => {
            match error {
                None => {
                    lemma_same(s.results);
                },
                Some(error) => {
                    let n = s.pending.len() as int;
                    lemma_reported(
                        s,
                        "child continuation admission failed: "@,
                        Seq::new(s.pending.len(), |k: int| Some(error)),
                        n,
                    );
                },
            }
        },
        TransactionEvent::ContinuationsSent { outcomes } => {
            let n = s.pending.len() as int;
            lemma_continued(s, outcomes, n);
            lemma_continued_statuses_len(s, t.results, s.failed.len() as int);
            assert forall|k: int| 0 <= k < t.waits.len() implies !completed(
                t.results,
                (#[trigger] t.waits[k]).ordinal as int,
            ) by {
                assert(!completed(s.results, resumed_waits(s, outcomes, n)[k].ordinal as int));
            }
        },
        TransactionEvent::RetryTornDown { error, cancelled } => {
            lemma_without_threads_len(s.current, s.failed, s.failed.len() as int);
            let mid = match error {
                Some(error) => TransactionModel { fatal: Some(error), ..s },
                None => TransactionModel {
                    current: crate::spawn_transaction::without_threads(
                        s.current,
                        s.failed,
                        s.failed.len() as int,
                    ),
                    cancelled: true,
                    ..s
                },
            };
            lemma_finishing(mid);
            lemma_same(s.results);
        },
        TransactionEvent::RetryAdmitted { admission } => {
            lemma_same(s.results);
            match admission {
                RetryAdmission::RequestFailed(error) => {
                    lemma_finishing(TransactionModel { fatal: Some(error@), ..s });
                },
                RetryAdmission::Refused(error) => {
                    lemma_refused(s, error@, s.failed.len() as int);
                },
                RetryAdmission::Admitted { cancelled } => {
                    lemma_finishing(TransactionModel { cancelled: true, ..s });
                },
            }
        },
        TransactionEvent::RetryStarted { starts } => {
            lemma_restart(s, starts, starts.len() as int);
            lemma_none_completed(s.results, t.results, s.failed);
            lemma_none_completed(s.results, t.results, t.pending);
        },
        TransactionEvent::RetryRolledBack { error } => {
            lemma_same(s.results);
            lemma_without_threads_len(s.current, s.pending, s.pending.len() as int);
            match error {
                Some(error) => {
                    lemma_finishing(TransactionModel { fatal: Some(error), ..s });
                },
                None => {
                    lemma_undone(s, s.pending.len() as int);
                },
            }
        },
        TransactionEvent::RetryStatuses { statuses } => {
            let n = s.pending.len() as int;
            lemma_cleared(s, statuses, n);
            assert forall|k: int| 0 <= k < t.waits.len() implies !completed(
                t.results,
                (#[trigger] t.waits[k]).ordinal as int,
            ) by {
                assert(!completed(s.results, s.pending[k] as int));
            }
        },
    }
}

proof fn lemma_chain(
    a: Seq<Option<ResultModel>>,
    b: Seq<Option<ResultModel>>,
    c: Seq<Option<ResultModel>>,
)
    requires
        keeps(a, b),
        keeps(b, c),
    ensures
        keeps(a, c),
{
    assert forall|o: int| 0 <= o < a.len() && #[trigger] completed(a, o) implies c[o] == a[o] by {
        assert(b[o] == a[o]);
        assert(completed(b, o));
    }
}

proof fn lemma_gate(s: TransactionModel, answer: GateAnswer)
    requires
        course(s),
        s.phase is Gate,
    ensures
        course(gate_step(s, answer)),
        keeps(s.results, gate_step(s, answer).results),
{
    let t = gate_step(s, answer);
    lemma_same(s.results);
    match answer {
        GateAnswer::Cancelled => {
            lemma_finishing(TransactionModel { cancelled: true, ..s });
        },
        GateAnswer::Dismissed => {
            lemma_finishing(TransactionModel { gate_cancelled: true, ..s });
        },
        GateAnswer::Decided(decision) => {
            match decision.action {
                SpawnFailureAction::Abandon => {
                    let mid = TransactionModel {
                        round: if s.round < u32::MAX {
                            (s.round + 1) as u32
                        } else {
                            s.round
                        },
                        note: crate::shapes::text_view(decision.note),
                        ..s
                    };
                    lemma_finishing(mid);
                },
                SpawnFailureAction::Continue => {
                    let n = s.failed.len() as int;
                    lemma_unavailable(s, n);
                    lemma_available(s, n);
                    lemma_none_completed(s.results, t.results, s.failed);
                    lemma_none_completed(s.results, t.results, t.pending);
                },
                SpawnFailureAction::Retry => {},
            }
        },
    }
}

/// A receipt answers every task, in task order, each result under its own
/// ordinal.
pub proof fn receipts_are_total_and_ordered(s: TransactionModel, teardown: Option<Seq<char>>)
    requires
        course(s),
    ensures
        verdict(s, teardown) matches Ok(results) ==> {
            &&& results.len() == s.tasks.len()
            &&& forall|o: int|
                0 <= o < results.len() ==> (#[trigger] results[o]).ordinal == o as u32
        },
{
    if let Ok(results) = verdict(s, teardown) {
        assert forall|o: int| 0 <= o < results.len() implies (#[trigger] results[o]).ordinal
            == o as u32 by {
            assert(s.results[o] matches Some(result) ==> result.ordinal == o as u32);
        }
    }
}

/// After a cancellation no task is without a result.
pub proof fn a_cancelled_transaction_answers_every_task(s: TransactionModel)
    requires
        transaction_inv(s),
        s.cancelled,
    ensures
        forall|o: int|
            0 <= o < s.results.len() ==> #[trigger] finishing(s).results[o] is Some,
{
}

/// Whatever status a branch ended in, its result says something, and only a
/// branch with a final memory counts as completed.
pub proof fn results_are_truthful(ordinal: usize, thread: Seq<char>, status: StatusModel)
    ensures
        !blank(status_result(ordinal, thread, status).memory_body),
        status_result(ordinal, thread, status).outcome is Completed <==> (status
            matches StatusModel::Completed(Some(memory)) && !blank(memory)),
        status_result(ordinal, thread, status).execution_ref == Some(thread),
{
    reveal_strlit("child completed without a non-empty final memory");
    reveal_strlit("child errored: ");
    reveal_strlit("child shut down before returning final memory");
    reveal_strlit("child was not found before returning final memory");
    reveal_strlit("child did not reach a terminal status: PendingInit");
    reveal_strlit("child did not reach a terminal status: Running");
    reveal_strlit("child did not reach a terminal status: Interrupted");
    let body = status_result(ordinal, thread, status).memory_body;
    if !(status matches StatusModel::Completed(Some(memory)) && !blank(memory)) {
        assert(body[0] == 'c');
    }
}

} // verus!
