//! The course of one spawn transaction after its branches have started: waiting
//! for them, asking what to do about failures, letting failed branches go on or
//! start again, and tearing everything down at the end.
//!
//! The transaction decides; its driver acts. The driver performs what the
//! current [`SpawnPhase`] asks for and reports what came of it.

use crate::fragments::SpawnOutcome;
use crate::spawn::{
    aborted_result, copy_text, error_result, finish_receipt, is_spawn_terminal,
    normalized_progress_status, result_from_status, result_status, spawn_progress_event,
    AgentStatus, SpawnReceipt, SpawnResult, SpawnTask, SpineSpawnProgressEvent,
    CONTINUE_AFTER_FAILURE_MESSAGE,
};
use crate::spawn_gate::{
    append_failure_guidance, failure_gate_enabled, SpawnFailureAction, SpawnFailureDecision,
};
use crate::spawn_tasks::task_envelope;
use crate::text::{decimal, same_text};
use vstd::prelude::*;

verus! {

use crate::fragments::str_view;
use crate::shapes::text_view;
use crate::spawn::{
    aborted, failure, filled, progress_status, result_models, shown_status, shows_task, slot_models,
    slot_view, status_result, terminal, ResultModel, StatusModel,
};
use crate::spawn_gate::{asks_user, guided};
use crate::spawn_tasks::envelope;
use crate::text::decimal_text;

/// What a transaction waits for.
#[derive(Clone, Copy, Debug, PartialEq, Eq, Structural)]
pub enum SpawnPhase {
    /// The attempts that are under way.
    Attempts,
    /// The user's decision about the failed branches.
    Gate,
    /// Status subscriptions of the branches that are to go on.
    Subscriptions,
    /// Execution slots for the branches that are to go on.
    Reservation,
    /// Delivery of the continuation messages.
    Continuations,
    /// Teardown of the branches that are to start again.
    RetryTeardown,
    /// Admission of the branches that are to start again.
    RetryAdmission,
    /// The new starts.
    RetryStarts,
    /// Teardown of new starts whose siblings failed.
    RetryRollback,
    /// The first statuses of the new starts.
    RetryStatuses,
    /// The final teardown.
    Teardown,
}

/// An attempt that is waited for.
#[derive(Debug, PartialEq, Eq)]
pub struct AttemptWait {
    pub ordinal: usize,
    pub thread_id: String,
    /// Whether the branch was resumed, rather than started.
    pub resumed: bool,
}

/// The model of an [`AttemptWait`].
pub ghost struct WaitModel {
    pub ordinal: usize,
    pub thread: Seq<char>,
    pub resumed: bool,
}

impl View for AttemptWait {
    type V = WaitModel;

    open spec fn view(&self) -> WaitModel {
        WaitModel { ordinal: self.ordinal, thread: self.thread_id@, resumed: self.resumed }
    }
}

/// What came of asking the user.
pub enum GateAnswer {
    /// The transaction was cancelled before an answer.
    Cancelled,
    /// The question was dismissed, or its answer is no decision.
    Dismissed,
    Decided(SpawnFailureDecision),
}

/// What came of asking for new starts.
pub enum RetryAdmission {
    /// The requests themselves could not be made.
    RequestFailed(String),
    /// The requests were not admitted.
    Refused(String),
    /// They were admitted; `cancelled` says whether the transaction has been
    /// cancelled since.
    Admitted { cancelled: bool },
}

/// A spawn transaction whose branches have started.
pub struct SpawnTransaction {
    call_id: String,
    tasks: Vec<SpawnTask>,
    child_paths: Vec<String>,
    gate_enabled: bool,
    results: Vec<Option<SpawnResult>>,
    current: Vec<Option<String>>,
    shown_threads: Vec<String>,
    shown: Vec<AgentStatus>,
    waits: Vec<AttemptWait>,
    settled: Vec<Option<SpawnResult>>,
    failed: Vec<usize>,
    pending: Vec<usize>,
    note: Option<String>,
    round: u32,
    cancelled: bool,
    gate_cancelled: bool,
    fatal: Option<String>,
    phase: SpawnPhase,
}

/// The abstract state of a transaction.
#[verifier::ext_equal]
pub ghost struct TransactionModel {
    pub call_id: Seq<char>,
    pub tasks: Seq<SpawnTask>,
    pub child_paths: Seq<String>,
    /// Whether failures are put to the user.
    pub gate_enabled: bool,
    /// The result of each task, where it has one.
    pub results: Seq<Option<ResultModel>>,
    /// The thread of each task's branch, where it has one.
    pub current: Seq<Option<Seq<char>>>,
    /// The threads that progress shows.
    pub shown_threads: Seq<Seq<char>>,
    /// The statuses that progress shows.
    pub shown: Seq<StatusModel>,
    /// The attempts under way, and what those that have ended came to.
    pub waits: Seq<WaitModel>,
    pub settled: Seq<Option<ResultModel>>,
    /// The failed tasks that the user was asked about, in order.
    pub failed: Seq<usize>,
    /// Those of them that are being dealt with, in order.
    pub pending: Seq<usize>,
    pub note: Option<Seq<char>>,
    pub round: u32,
    pub cancelled: bool,
    pub gate_cancelled: bool,
    pub fatal: Option<Seq<char>>,
    pub phase: SpawnPhase,
}

pub open spec fn text_views(texts: Seq<String>) -> Seq<Seq<char>> {
    texts.map_values(|text: String| text@)
}

pub open spec fn option_views(texts: Seq<Option<String>>) -> Seq<Option<Seq<char>>> {
    texts.map_values(|text: Option<String>| text_view(text))
}

pub open spec fn status_models(statuses: Seq<AgentStatus>) -> Seq<StatusModel> {
    statuses.map_values(|status: AgentStatus| status@)
}

pub open spec fn wait_models(waits: Seq<AttemptWait>) -> Seq<WaitModel> {
    waits.map_values(|wait: AttemptWait| wait@)
}

/// Whether a list of ordinals is strictly increasing and within bounds.
pub open spec fn ordinals_below(ordinals: Seq<usize>, n: nat) -> bool {
    &&& forall|k: int| 0 <= k < ordinals.len() ==> (#[trigger] ordinals[k]) < n
    &&& forall|j: int, k: int| 0 <= j < k < ordinals.len() ==> ordinals[j] < ordinals[k]
}

/// Whether every ordinal of a list has a thread.
pub open spec fn have_threads(ordinals: Seq<usize>, current: Seq<Option<Seq<char>>>) -> bool {
    forall|k: int|
        0 <= k < ordinals.len() ==> current[(#[trigger] ordinals[k]) as int] is Some
}

/// Whether the phase deals with the pending tasks.
pub open spec fn handles_pending(phase: SpawnPhase) -> bool {
    phase is Subscriptions || phase is Reservation || phase is Continuations
        || phase is RetryRollback || phase is RetryStatuses
}

/// What every state of a transaction keeps.
pub open spec fn transaction_inv(s: TransactionModel) -> bool {
    let n = s.tasks.len();
    &&& s.child_paths.len() == n
    &&& s.results.len() == n
    &&& s.current.len() == n
    &&& s.shown_threads.len() == n
    &&& s.shown.len() == n
    &&& s.settled.len() == s.waits.len()
    &&& forall|k: int| 0 <= k < s.waits.len() ==> (#[trigger] s.waits[k]).ordinal < n
    &&& ordinals_below(s.failed, n)
    &&& ordinals_below(s.pending, n)
    &&& handles_pending(s.phase) ==> have_threads(s.pending, s.current)
}

/// The tasks whose result is not a completion, in order.
pub open spec fn failures(results: Seq<Option<ResultModel>>) -> Seq<usize>
    decreases results.len(),
{
    if results.len() == 0 {
        Seq::empty()
    } else {
        let before = failures(results.drop_last());
        match results.last() {
            Some(result) => if result.outcome is Completed {
                before
            } else {
                before.push((results.len() - 1) as usize)
            },
            None => before,
        }
    }
}

/// The progress statuses, with every result shown.
pub open spec fn synced(results: Seq<Option<ResultModel>>, shown: Seq<StatusModel>) -> Seq<
    StatusModel,
> {
    Seq::new(
        shown.len(),
        |o: int|
            match results[o] {
                Some(result) => shown_status(result),
                None => shown[o],
            },
    )
}

/// The state in which the transaction only has to be torn down. After a
/// cancellation every task without a result is aborted.
pub open spec fn finishing(s: TransactionModel) -> TransactionModel {
    if s.cancelled {
        let results = Seq::new(
            s.results.len(),
            |o: int|
                match s.results[o] {
                    Some(result) => Some(result),
                    None => Some(aborted(o as usize, s.current[o])),
                },
        );
        TransactionModel {
            results,
            shown: synced(results, s.shown),
            phase: SpawnPhase::Teardown,
            ..s
        }
    } else {
        TransactionModel { phase: SpawnPhase::Teardown, ..s }
    }
}

/// The state in which the given attempts are waited for.
pub open spec fn waiting(s: TransactionModel, waits: Seq<WaitModel>) -> TransactionModel {
    TransactionModel {
        waits,
        settled: Seq::new(waits.len(), |k: int| None::<ResultModel>),
        phase: SpawnPhase::Attempts,
        ..s
    }
}

/// An attempt ended: progress shows its result.
pub open spec fn settle_step(s: TransactionModel, k: int, status: StatusModel) -> TransactionModel {
    let wait = s.waits[k];
    let result = status_result(wait.ordinal, wait.thread, status);
    TransactionModel {
        settled: s.settled.update(k, Some(result)),
        shown: s.shown.update(wait.ordinal as int, shown_status(result)),
        ..s
    }
}

/// The results, with those of the first `k` attempts filled in.
pub open spec fn settled_results(s: TransactionModel, k: int) -> Seq<Option<ResultModel>>
    decreases k,
{
    if k <= 0 {
        s.results
    } else {
        settled_results(s, k - 1).update(s.waits[k - 1].ordinal as int, s.settled[k - 1])
    }
}

/// All attempts ended: failures are put to the user, where they are at all.
pub open spec fn completed_step(s: TransactionModel) -> TransactionModel {
    let results = settled_results(s, s.waits.len() as int);
    let failed = failures(results);
    let t = TransactionModel { results, failed, ..s };
    if failed.len() == 0 || !s.gate_enabled {
        finishing(t)
    } else {
        TransactionModel { phase: SpawnPhase::Gate, ..t }
    }
}

/// The result of an attempt that a cancellation cut short.
pub open spec fn cut_short(wait: WaitModel, status: StatusModel) -> ResultModel {
    if terminal(status) {
        status_result(wait.ordinal, wait.thread, status)
    } else {
        aborted(wait.ordinal, Some(wait.thread))
    }
}

/// The results, with those of the first `k` attempts as a cancellation found them.
pub open spec fn cancelled_results(s: TransactionModel, statuses: Seq<StatusModel>, k: int) -> Seq<
    Option<ResultModel>,
>
    decreases k,
{
    if k <= 0 {
        s.results
    } else {
        cancelled_results(s, statuses, k - 1).update(
            s.waits[k - 1].ordinal as int,
            Some(cut_short(s.waits[k - 1], statuses[k - 1])),
        )
    }
}

/// The transaction was cancelled during the attempts.
pub open spec fn cancel_step(s: TransactionModel, statuses: Seq<StatusModel>) -> TransactionModel {
    finishing(
        TransactionModel {
            results: cancelled_results(s, statuses, s.waits.len() as int),
            cancelled: true,
            ..s
        },
    )
}

/// The result of a failed task that has no thread to go on in.
pub open spec fn unavailable(ordinal: usize) -> ResultModel {
    failure(
        ordinal,
        SpawnOutcome::Errored,
        "child cannot continue because its thread is no longer available"@,
        None,
    )
}

/// The results, where the first `k` failed tasks without a thread cannot go on.
pub open spec fn unavailable_results(s: TransactionModel, k: int) -> Seq<Option<ResultModel>>
    decreases k,
{
    if k <= 0 {
        s.results
    } else {
        let before = unavailable_results(s, k - 1);
        let o = s.failed[k - 1];
        if s.current[o as int] is None {
            before.update(o as int, Some(unavailable(o)))
        } else {
            before
        }
    }
}

/// Those of the first `k` failed tasks that have a thread.
pub open spec fn available(s: TransactionModel, k: int) -> Seq<usize>
    decreases k,
{
    if k <= 0 {
        Seq::empty()
    } else if s.current[s.failed[k - 1] as int] is Some {
        available(s, k - 1).push(s.failed[k - 1])
    } else {
        available(s, k - 1)
    }
}

/// The user was asked.
pub open spec fn gate_step(s: TransactionModel, answer: GateAnswer) -> TransactionModel {
    match answer {
        GateAnswer::Cancelled => finishing(TransactionModel { cancelled: true, ..s }),
        GateAnswer::Dismissed => finishing(TransactionModel { gate_cancelled: true, ..s }),
        GateAnswer::Decided(decision) => {
            let t = TransactionModel {
                round: if s.round < u32::MAX {
                    (s.round + 1) as u32
                } else {
                    s.round
                },
                note: text_view(decision.note),
                ..s
            };
            match decision.action {
                SpawnFailureAction::Abandon => finishing(t),
                SpawnFailureAction::Continue => TransactionModel {
                    results: unavailable_results(s, s.failed.len() as int),
                    pending: available(s, s.failed.len() as int),
                    phase: SpawnPhase::Subscriptions,
                    ..t
                },
                SpawnFailureAction::Retry => TransactionModel {
                    phase: SpawnPhase::RetryTeardown,
                    ..t
                },
            }
        },
    }
}

/// The thread of a task that has one.
pub open spec fn thread_of(s: TransactionModel, o: usize) -> Seq<char> {
    s.current[o as int]->0
}

/// The results, where those of the first `k` pending tasks that met an error
/// report it.
pub open spec fn reported_results(
    s: TransactionModel,
    prefix: Seq<char>,
    outcomes: Seq<Option<Seq<char>>>,
    k: int,
) -> Seq<Option<ResultModel>>
    decreases k,
{
    if k <= 0 {
        s.results
    } else {
        let before = reported_results(s, prefix, outcomes, k - 1);
        let o = s.pending[k - 1];
        match outcomes[k - 1] {
            Some(error) => before.update(
                o as int,
                Some(
                    failure(o, SpawnOutcome::Errored, prefix + error, Some(thread_of(s, o))),
                ),
            ),
            None => before,
        }
    }
}

/// Those of the first `k` pending tasks that met no error.
pub open spec fn unhindered(s: TransactionModel, outcomes: Seq<Option<Seq<char>>>, k: int) -> Seq<
    usize,
>
    decreases k,
{
    if k <= 0 {
        Seq::empty()
    } else if outcomes[k - 1] is None {
        unhindered(s, outcomes, k - 1).push(s.pending[k - 1])
    } else {
        unhindered(s, outcomes, k - 1)
    }
}

/// The status subscriptions came back, with the errors met.
pub open spec fn subscribed_step(s: TransactionModel, outcomes: Seq<Option<Seq<char>>>)
    -> TransactionModel {
    TransactionModel {
        results: reported_results(
            s,
            "child cannot continue: "@,
            outcomes,
            s.pending.len() as int,
        ),
        pending: unhindered(s, outcomes, s.pending.len() as int),
        phase: SpawnPhase::Reservation,
        ..s
    }
}

/// The state after a round that ended before any attempt: progress shows every
/// result, and the next round has nothing to wait for.
pub open spec fn round_failed(s: TransactionModel, results: Seq<Option<ResultModel>>)
    -> TransactionModel {
    waiting(TransactionModel { results, shown: synced(results, s.shown), ..s }, Seq::empty())
}

/// The execution slots were granted, or refused with an error.
pub open spec fn reserved_step(s: TransactionModel, error: Option<Seq<char>>) -> TransactionModel {
    match error {
        None => TransactionModel { phase: SpawnPhase::Continuations, ..s },
        Some(error) => round_failed(
            s,
            reported_results(
                s,
                "child continuation admission failed: "@,
                Seq::new(s.pending.len(), |k: int| Some(error)),
                s.pending.len() as int,
            ),
        ),
    }
}

/// The results, where the first `k` pending tasks go on or report why not.
pub open spec fn continued_results(
    s: TransactionModel,
    outcomes: Seq<Option<Seq<char>>>,
    k: int,
) -> Seq<Option<ResultModel>>
    decreases k,
{
    if k <= 0 {
        s.results
    } else {
        let before = continued_results(s, outcomes, k - 1);
        let o = s.pending[k - 1];
        match outcomes[k - 1] {
            Some(error) => before.update(
                o as int,
                Some(
                    failure(
                        o,
                        SpawnOutcome::Errored,
                        "child continuation failed to start: "@ + error,
                        Some(thread_of(s, o)),
                    ),
                ),
            ),
            None => before.update(o as int, None),
        }
    }
}

/// The attempts of those of the first `k` pending tasks that go on.
pub open spec fn resumed_waits(
    s: TransactionModel,
    outcomes: Seq<Option<Seq<char>>>,
    k: int,
) -> Seq<WaitModel>
    decreases k,
{
    if k <= 0 {
        Seq::empty()
    } else if outcomes[k - 1] is None {
        let o = s.pending[k - 1];
        resumed_waits(s, outcomes, k - 1).push(
            WaitModel { ordinal: o, thread: thread_of(s, o), resumed: true },
        )
    } else {
        resumed_waits(s, outcomes, k - 1)
    }
}

/// The statuses, where the first `k` failed tasks show their result, or that
/// they are running.
pub open spec fn continued_statuses(
    s: TransactionModel,
    results: Seq<Option<ResultModel>>,
    k: int,
) -> Seq<StatusModel>
    decreases k,
{
    if k <= 0 {
        s.shown
    } else {
        let o = s.failed[k - 1] as int;
        continued_statuses(s, results, k - 1).update(
            o,
            match results[o] {
                Some(result) => shown_status(result),
                None => StatusModel::Running,
            },
        )
    }
}

/// The continuation messages were delivered, or failed with an error.
pub open spec fn continued_step(s: TransactionModel, outcomes: Seq<Option<Seq<char>>>)
    -> TransactionModel {
    let results = continued_results(s, outcomes, s.pending.len() as int);
    waiting(
        TransactionModel {
            results,
            shown: continued_statuses(s, results, s.failed.len() as int),
            ..s
        },
        resumed_waits(s, outcomes, s.pending.len() as int),
    )
}

/// The threads, where the first `k` of the given tasks have none any more.
pub open spec fn without_threads(
    current: Seq<Option<Seq<char>>>,
    ordinals: Seq<usize>,
    k: int,
) -> Seq<Option<Seq<char>>>
    decreases k,
{
    if k <= 0 {
        current
    } else {
        without_threads(current, ordinals, k - 1).update(ordinals[k - 1] as int, None)
    }
}

/// The branches to be started again were torn down, or that failed.
pub open spec fn retry_teardown_step(
    s: TransactionModel,
    error: Option<Seq<char>>,
    cancelled: bool,
) -> TransactionModel {
    match error {
        Some(error) => finishing(TransactionModel { fatal: Some(error), ..s }),
        None => {
            let t = TransactionModel {
                current: without_threads(s.current, s.failed, s.failed.len() as int),
                ..s
            };
            if cancelled {
                finishing(TransactionModel { cancelled: true, ..t })
            } else {
                TransactionModel { phase: SpawnPhase::RetryAdmission, ..t }
            }
        },
    }
}

/// The results, where the first `k` failed tasks were not admitted again.
pub open spec fn refused_results(s: TransactionModel, error: Seq<char>, k: int) -> Seq<
    Option<ResultModel>,
>
    decreases k,
{
    if k <= 0 {
        s.results
    } else {
        let o = s.failed[k - 1];
        refused_results(s, error, k - 1).update(
            o as int,
            Some(
                failure(
                    o,
                    SpawnOutcome::Errored,
                    "child retry admission failed: "@ + error,
                    None,
                ),
            ),
        )
    }
}

/// New starts were asked for.
pub open spec fn retry_admission_step(s: TransactionModel, admission: RetryAdmission)
    -> TransactionModel {
    match admission {
        RetryAdmission::RequestFailed(error) => finishing(
            TransactionModel { fatal: Some(error@), ..s },
        ),
        RetryAdmission::Refused(error) => round_failed(
            s,
            refused_results(s, error@, s.failed.len() as int),
        ),
        RetryAdmission::Admitted { cancelled } => if cancelled {
            finishing(TransactionModel { cancelled: true, ..s })
        } else {
            TransactionModel { phase: SpawnPhase::RetryStarts, ..s }
        },
    }
}

/// The results, where those of the first `k` failed tasks that did not start
/// again report it.
pub open spec fn restart_results(
    s: TransactionModel,
    starts: Seq<Result<String, String>>,
    k: int,
) -> Seq<Option<ResultModel>>
    decreases k,
{
    if k <= 0 {
        s.results
    } else {
        let before = restart_results(s, starts, k - 1);
        let o = s.failed[k - 1];
        match starts[k - 1] {
            Ok(_) => before,
            Err(error) => before.update(
                o as int,
                Some(
                    failure(
                        o,
                        SpawnOutcome::Errored,
                        "child retry failed to start: "@ + error@,
                        None,
                    ),
                ),
            ),
        }
    }
}

/// Those of the first `k` failed tasks that started again.
pub open spec fn restarted(s: TransactionModel, starts: Seq<Result<String, String>>, k: int) -> Seq<
    usize,
>
    decreases k,
{
    if k <= 0 {
        Seq::empty()
    } else if starts[k - 1] is Ok {
        restarted(s, starts, k - 1).push(s.failed[k - 1])
    } else {
        restarted(s, starts, k - 1)
    }
}

/// The threads, with those of the first `k` new starts.
pub open spec fn restarted_threads(
    s: TransactionModel,
    starts: Seq<Result<String, String>>,
    k: int,
) -> Seq<Option<Seq<char>>>
    decreases k,
{
    if k <= 0 {
        s.current
    } else {
        let before = restarted_threads(s, starts, k - 1);
        match starts[k - 1] {
            Ok(thread) => before.update(s.failed[k - 1] as int, Some(thread@)),
            Err(_) => before,
        }
    }
}

/// The threads that progress shows, with those of the first `k` new starts.
pub open spec fn restarted_shown(
    s: TransactionModel,
    starts: Seq<Result<String, String>>,
    k: int,
) -> Seq<Seq<char>>
    decreases k,
{
    if k <= 0 {
        s.shown_threads
    } else {
        let before = restarted_shown(s, starts, k - 1);
        match starts[k - 1] {
            Ok(thread) => before.update(s.failed[k - 1] as int, thread@),
            Err(_) => before,
        }
    }
}

/// Whether one of the starts failed.
pub open spec fn some_start_failed(starts: Seq<Result<String, String>>) -> bool {
    exists|k: int| 0 <= k < starts.len() && #[trigger] starts[k] is Err
}

/// The failed tasks were started again: all of them, or the round is undone.
pub open spec fn restarted_step(s: TransactionModel, starts: Seq<Result<String, String>>)
    -> TransactionModel {
    let k = starts.len() as int;
    TransactionModel {
        results: restart_results(s, starts, k),
        current: restarted_threads(s, starts, k),
        shown_threads: restarted_shown(s, starts, k),
        pending: restarted(s, starts, k),
        phase: if some_start_failed(starts) {
            SpawnPhase::RetryRollback
        } else {
            SpawnPhase::RetryStatuses
        },
        ..s
    }
}

/// The results, where the first `k` pending tasks were undone.
pub open spec fn undone_results(s: TransactionModel, k: int) -> Seq<Option<ResultModel>>
    decreases k,
{
    if k <= 0 {
        s.results
    } else {
        let o = s.pending[k - 1];
        undone_results(s, k - 1).update(
            o as int,
            Some(
                failure(
                    o,
                    SpawnOutcome::Aborted,
                    "child retry aborted because another retry child failed to start"@,
                    Some(thread_of(s, o)),
                ),
            ),
        )
    }
}

/// The new starts were undone, or that failed.
pub open spec fn rollback_step(s: TransactionModel, error: Option<Seq<char>>) -> TransactionModel {
    match error {
        Some(error) => finishing(TransactionModel { fatal: Some(error), ..s }),
        None => round_failed(
            TransactionModel {
                current: without_threads(s.current, s.pending, s.pending.len() as int),
                ..s
            },
            undone_results(s, s.pending.len() as int),
        ),
    }
}

/// The results, where the first `k` pending tasks have none.
pub open spec fn cleared_results(s: TransactionModel, k: int) -> Seq<Option<ResultModel>>
    decreases k,
{
    if k <= 0 {
        s.results
    } else {
        cleared_results(s, k - 1).update(s.pending[k - 1] as int, None)
    }
}

/// The statuses, with those of the first `k` pending tasks.
pub open spec fn restarted_statuses(s: TransactionModel, statuses: Seq<StatusModel>, k: int) -> Seq<
    StatusModel,
>
    decreases k,
{
    if k <= 0 {
        s.shown
    } else {
        let o = s.pending[k - 1];
        restarted_statuses(s, statuses, k - 1).update(
            o as int,
            progress_status(o, thread_of(s, o), statuses[k - 1]),
        )
    }
}

/// The attempts of the pending tasks.
pub open spec fn started_waits(s: TransactionModel) -> Seq<WaitModel> {
    Seq::new(
        s.pending.len(),
        |k: int|
            WaitModel {
                ordinal: s.pending[k],
                thread: thread_of(s, s.pending[k]),
                resumed: false,
            },
    )
}

/// The first statuses of the new starts are known.
pub open spec fn retry_statuses_step(s: TransactionModel, statuses: Seq<StatusModel>)
    -> TransactionModel {
    let k = s.pending.len() as int;
    waiting(
        TransactionModel {
            results: cleared_results(s, k),
            shown: restarted_statuses(s, statuses, k),
            ..s
        },
        started_waits(s),
    )
}

/// What the transaction comes to once everything is torn down: the receipt's
/// results, or the error that is reported.
pub open spec fn verdict(s: TransactionModel, teardown: Option<Seq<char>>) -> Result<
    Seq<ResultModel>,
    Seq<char>,
> {
    match s.fatal {
        Some(error) => match teardown {
            None => Err(error),
            Some(cleanup) => Err(error + "; cleanup failed: "@ + cleanup),
        },
        None => match teardown {
            Some(error) => Err(error),
            None => if s.gate_cancelled {
                Err("spine.spawn failure gate was cancelled without a selection"@)
            } else {
                Ok(filled(s.results))
            },
        },
    }
}


/// The state in which a transaction begins: every task has a running branch.
pub open spec fn begun(
    call_id: Seq<char>,
    tasks: Seq<SpawnTask>,
    child_paths: Seq<String>,
    gate_enabled: bool,
    threads: Seq<Seq<char>>,
    statuses: Seq<StatusModel>,
) -> TransactionModel {
    let n = tasks.len();
    TransactionModel {
        call_id,
        tasks,
        child_paths,
        gate_enabled,
        results: Seq::new(n, |o: int| None::<ResultModel>),
        current: Seq::new(n, |o: int| Some(threads[o])),
        shown_threads: threads,
        shown: Seq::new(n, |o: int| progress_status(o as usize, threads[o], statuses[o])),
        waits: Seq::new(
            n,
            |o: int| WaitModel { ordinal: o as usize, thread: threads[o], resumed: false },
        ),
        settled: Seq::new(n, |o: int| None::<ResultModel>),
        failed: Seq::empty(),
        pending: Seq::empty(),
        note: None,
        round: 1,
        cancelled: false,
        gate_cancelled: false,
        fatal: None,
        phase: SpawnPhase::Attempts,
    }
}

impl View for SpawnTransaction {
    type V = TransactionModel;

    closed spec fn view(&self) -> TransactionModel {
        TransactionModel {
            call_id: self.call_id@,
            tasks: self.tasks@,
            child_paths: self.child_paths@,
            gate_enabled: self.gate_enabled,
            results: slot_models(self.results@),
            current: option_views(self.current@),
            shown_threads: text_views(self.shown_threads@),
            shown: status_models(self.shown@),
            waits: wait_models(self.waits@),
            settled: slot_models(self.settled@),
            failed: self.failed@,
            pending: self.pending@,
            note: text_view(self.note),
            round: self.round,
            cancelled: self.cancelled,
            gate_cancelled: self.gate_cancelled,
            fatal: text_view(self.fatal),
            phase: self.phase,
        }
    }
}

proof fn lemma_slot_update(s: Seq<Option<SpawnResult>>, i: int, x: Option<SpawnResult>)
    requires
        0 <= i < s.len(),
    ensures
        slot_models(s.update(i, x)) == slot_models(s).update(i, slot_view(x)),
{
    assert(slot_models(s.update(i, x)) =~= slot_models(s).update(i, slot_view(x)));
}

proof fn lemma_status_update(s: Seq<AgentStatus>, i: int, x: AgentStatus)
    requires
        0 <= i < s.len(),
    ensures
        status_models(s.update(i, x)) == status_models(s).update(i, x@),
{
    assert(status_models(s.update(i, x)) =~= status_models(s).update(i, x@));
}

proof fn lemma_option_update(s: Seq<Option<String>>, i: int, x: Option<String>)
    requires
        0 <= i < s.len(),
    ensures
        option_views(s.update(i, x)) == option_views(s).update(i, text_view(x)),
{
    assert(option_views(s.update(i, x)) =~= option_views(s).update(i, text_view(x)));
}

proof fn lemma_text_update(s: Seq<String>, i: int, x: String)
    requires
        0 <= i < s.len(),
    ensures
        text_views(s.update(i, x)) == text_views(s).update(i, x@),
{
    assert(text_views(s.update(i, x)) =~= text_views(s).update(i, x@));
}

proof fn lemma_failures(results: Seq<Option<ResultModel>>)
    requires
        results.len() <= usize::MAX,
    ensures
        ordinals_below(failures(results), results.len()),
        forall|k: int|
            0 <= k < failures(results).len() ==> {
                let o = (#[trigger] failures(results)[k]) as int;
                results[o] matches Some(result) && !(result.outcome is Completed)
            },
    decreases results.len(),
{
    if results.len() > 0 {
        lemma_failures(results.drop_last());
    }
}

fn copy_slot(slot: &Option<SpawnResult>) -> (r: Option<SpawnResult>)
    ensures
        r == *slot,
{
    match slot {
        Some(result) => Some(
            SpawnResult {
                ordinal: result.ordinal,
                outcome: result.outcome,
                memory_body: result.memory_body.clone(),
                diagnostic: copy_text(&result.diagnostic),
                execution_ref: copy_text(&result.execution_ref),
            },
        ),
        None => None,
    }
}

fn prefixed(prefix: &str, error: &str) -> (r: String)
    ensures
        r@ == prefix@ + error@,
{
    let mut text = String::from_str(prefix);
    text.append(error);
    text
}

impl SpawnTransaction {
    /// What every transaction keeps: see [`transaction_inv`].
    pub open spec fn wf(&self) -> bool {
        transaction_inv(self@)
    }

    /// Begins a transaction all of whose branches have started, with their
    /// threads and first statuses. `parent_path` is the path of the agent that
    /// spawned them, where it has one: failures are put to the user only where
    /// that is the root agent.
    pub fn begin(
        call_id: &str,
        tasks: Vec<SpawnTask>,
        child_paths: Vec<String>,
        parent_path: Option<&str>,
        root_path: &str,
        threads: Vec<String>,
        statuses: Vec<AgentStatus>,
    ) -> (r: Self)
        requires
            child_paths@.len() == tasks@.len(),
            threads@.len() == tasks@.len(),
            statuses@.len() == tasks@.len(),
        ensures
            r.wf(),
            r@ == begun(
                call_id@,
                tasks@,
                child_paths@,
                asks_user(str_view(parent_path), root_path@),
                text_views(threads@),
                status_models(statuses@),
            ),
    {
        let gate_enabled = failure_gate_enabled(parent_path, root_path);
        let n = tasks.len();
        let mut results: Vec<Option<SpawnResult>> = Vec::new();
        let mut settled: Vec<Option<SpawnResult>> = Vec::new();
        let mut current: Vec<Option<String>> = Vec::new();
        let mut shown: Vec<AgentStatus> = Vec::new();
        let mut waits: Vec<AttemptWait> = Vec::new();
        let mut o: usize = 0;
        let ghost views = text_views(threads@);
        let ghost models = status_models(statuses@);
        while o < n
            invariant
                o <= n,
                n == threads@.len() == statuses@.len(),
                views == text_views(threads@),
                models == status_models(statuses@),
                results@.len() == o,
                settled@.len() == o,
                current@.len() == o,
                shown@.len() == o,
                waits@.len() == o,
                forall|k: int| 0 <= k < o ==> #[trigger] results@[k] is None,
                forall|k: int| 0 <= k < o ==> #[trigger] settled@[k] is None,
                forall|k: int| 0 <= k < o ==> text_view(#[trigger] current@[k]) == Some(views[k]),
                forall|k: int|
                    0 <= k < o ==> (#[trigger] shown@[k])@ == progress_status(
                        k as usize,
                        views[k],
                        models[k],
                    ),
                forall|k: int|
                    0 <= k < o ==> (#[trigger] waits@[k])@ == (WaitModel {
                        ordinal: k as usize,
                        thread: views[k],
                        resumed: false,
                    }),
            decreases n - o,
        {
            results.push(None);
            settled.push(None);
            current.push(Some(threads[o].clone()));
            shown.push(normalized_progress_status(o, threads[o].as_str(), statuses[o].copy()));
            waits.push(AttemptWait { ordinal: o, thread_id: threads[o].clone(), resumed: false });
            o = o + 1;
        }
        let r = SpawnTransaction {
            call_id: call_id.to_owned(),
            tasks,
            child_paths,
            gate_enabled,
            results,
            current,
            shown_threads: threads,
            shown,
            waits,
            settled,
            failed: Vec::new(),
            pending: Vec::new(),
            note: None,
            round: 1,
            cancelled: false,
            gate_cancelled: false,
            fatal: None,
            phase: SpawnPhase::Attempts,
        };
        proof {
            let want = begun(call_id@, r.tasks@, r.child_paths@, gate_enabled, views, models);
            assert(r@.results =~= want.results);
            assert(r@.settled =~= want.settled);
            assert(r@.current =~= want.current);
            assert(r@.shown =~= want.shown);
            assert(r@.waits =~= want.waits);
            assert(r@.failed =~= want.failed);
            assert(r@.pending =~= want.pending);
        }
        r
    }

    /// What the transaction waits for.
    pub fn phase(&self) -> (r: SpawnPhase)
        ensures
            r == self@.phase,
    {
        self.phase
    }

    /// Whether the transaction was cancelled.
    pub fn is_cancelled(&self) -> (r: bool)
        ensures
            r == self@.cancelled,
    {
        self.cancelled
    }

    /// The attempts under way.
    pub fn attempts(&self) -> (r: &Vec<AttemptWait>)
        ensures
            wait_models(r@) == self@.waits,
    {
        &self.waits
    }

    /// The failed tasks that the user was asked about.
    pub fn failed(&self) -> (r: &Vec<usize>)
        ensures
            r@ == self@.failed,
    {
        &self.failed
    }

    /// The failed tasks that are being dealt with.
    pub fn pending(&self) -> (r: &Vec<usize>)
        ensures
            r@ == self@.pending,
    {
        &self.pending
    }

    /// The progress of the transaction, task by task.
    pub fn progress(&self) -> (r: SpineSpawnProgressEvent)
        requires
            self.wf(),
        ensures
            r.call_id@ == self@.call_id,
            r.tasks@.len() == self@.tasks.len(),
            forall|o: int|
                0 <= o < r.tasks@.len() ==> {
                    &&& (#[trigger] r.tasks@[o]).ordinal == o as u32
                    &&& r.tasks@[o].summary@ == self@.tasks[o].summary@
                    &&& r.tasks@[o].thread_id@ == self@.shown_threads[o]
                    &&& r.tasks@[o].agent_path@ == self@.child_paths[o]@
                    &&& r.tasks@[o].status@ == self@.shown[o]
                },
    {
        let r = spawn_progress_event(
            self.call_id.as_str(),
            &self.tasks,
            &self.shown_threads,
            &self.child_paths,
            &self.shown,
        );
        proof {
            assert forall|o: int| 0 <= o < r.tasks@.len() implies ({
                &&& (#[trigger] r.tasks@[o]).ordinal == o as u32
                &&& r.tasks@[o].summary@ == self@.tasks[o].summary@
                &&& r.tasks@[o].thread_id@ == self@.shown_threads[o]
                &&& r.tasks@[o].agent_path@ == self@.child_paths[o]@
                &&& r.tasks@[o].status@ == self@.shown[o]
            }) by {
                assert(shows_task(
                    r.tasks@[o],
                    o,
                    self.tasks@[o],
                    self.shown_threads@[o],
                    self.child_paths@[o],
                    self.shown@[o],
                ));
            }
        }
        r
    }

    fn sync_progress_results(&mut self)
        requires
            old(self)@.results.len() == old(self)@.shown.len(),
        ensures
            final(self)@ == (TransactionModel {
                shown: synced(old(self)@.results, old(self)@.shown),
                ..old(self)@
            }),
    {
        let ghost before = self@;
        let mut o: usize = 0;
        while o < self.results.len()
            invariant
                o <= self.results@.len(),
                self.results@.len() == self.shown@.len(),
                before.shown.len() == self.shown@.len(),
                self@ == (TransactionModel { shown: self@.shown, ..before }),
                forall|k: int|
                    0 <= k < o ==> (#[trigger] self@.shown[k]) == synced(
                        before.results,
                        before.shown,
                    )[k],
                forall|k: int|
                    o <= k < self.shown@.len() ==> (#[trigger] self@.shown[k]) == before.shown[k],
            decreases self.results@.len() - o,
        {
            let status = match &self.results[o] {
                Some(result) => Some(result_status(result)),
                None => None,
            };
            assert(before.results[o as int] == slot_view(self.results@[o as int]));
            if let Some(status) = status {
                proof {
                    lemma_status_update(self.shown@, o as int, status);
                }
                self.shown.set(o, status);
            }
            o = o + 1;
        }
        assert(self@.shown =~= synced(before.results, before.shown));
    }

    fn finish_attempts(&mut self)
        requires
            old(self).wf(),
        ensures
            final(self).wf(),
            final(self)@ == finishing(old(self)@),
    {
        let ghost before = self@;
        if self.cancelled {
            let ghost want = finishing(before);
            let mut o: usize = 0;
            while o < self.results.len()
                invariant
                    o <= self.results@.len(),
                    self.results@.len() == before.results.len(),
                    self.current@.len() == before.results.len(),
                    before.cancelled,
                    want == finishing(before),
                    self@ == (TransactionModel { results: self@.results, ..before }),
                    forall|k: int| 0 <= k < o ==> (#[trigger] self@.results[k]) == want.results[k],
                    forall|k: int|
                        o <= k < self.results@.len() ==> (#[trigger] self@.results[k])
                            == before.results[k],
                decreases self.results@.len() - o,
            {
                assert(self@.results[o as int] == slot_view(self.results@[o as int]));
                if self.results[o].is_none() {
                    let result = Some(aborted_result(o, &self.current[o]));
                    proof {
                        assert(before.current[o as int] == text_view(self.current@[o as int]));
                        lemma_slot_update(self.results@, o as int, result);
                    }
                    self.results.set(o, result);
                }
                o = o + 1;
            }
            assert(self@.results =~= want.results);
            self.sync_progress_results();
        }
        self.phase = SpawnPhase::Teardown;
    }

    fn start_waiting(&mut self, waits: Vec<AttemptWait>)
        ensures
            final(self)@ == waiting(old(self)@, wait_models(waits@)),
    {
        let mut settled: Vec<Option<SpawnResult>> = Vec::new();
        let mut k: usize = 0;
        while k < waits.len()
            invariant
                k <= waits@.len(),
                settled@.len() == k,
                forall|j: int| 0 <= j < k ==> #[trigger] settled@[j] is None,
            decreases waits@.len() - k,
        {
            settled.push(None);
            k = k + 1;
        }
        let ghost before = self@;
        self.waits = waits;
        self.settled = settled;
        self.phase = SpawnPhase::Attempts;
        assert(self@.settled =~= waiting(before, wait_models(waits@)).settled);
    }

    /// An attempt ended in the given status.
    pub fn attempt_settled(&mut self, k: usize, status: &AgentStatus)
        requires
            old(self).wf(),
            old(self)@.phase is Attempts,
            k < old(self)@.waits.len(),
        ensures
            final(self).wf(),
            final(self)@ == settle_step(old(self)@, k as int, status@),
    {
        let ghost before = self@;
        let ordinal = self.waits[k].ordinal;
        assert(before.waits[k as int] == self.waits@[k as int]@);
        let result = result_from_status(ordinal, self.waits[k].thread_id.as_str(), status);
        let shown = result_status(&result);
        proof {
            lemma_status_update(self.shown@, ordinal as int, shown);
            lemma_slot_update(self.settled@, k as int, Some(result));
        }
        self.shown.set(ordinal, shown);
        self.settled.set(k, Some(result));
    }

    /// Every attempt ended.
    pub fn attempts_completed(&mut self)
        requires
            old(self).wf(),
            old(self)@.phase is Attempts,
            forall|k: int|
                0 <= k < old(self)@.settled.len() ==> #[trigger] old(self)@.settled[k] is Some,
        ensures
            final(self).wf(),
            final(self)@ == completed_step(old(self)@),
    {
        let ghost before = self@;
        let mut k: usize = 0;
        while k < self.waits.len()
            invariant
                k <= self.waits@.len(),
                transaction_inv(before),
                self@ == (TransactionModel { results: self@.results, ..before }),
                self@.results == settled_results(before, k as int),
                self@.results.len() == before.results.len(),
            decreases self.waits@.len() - k,
        {
            let ordinal = self.waits[k].ordinal;
            assert(before.waits[k as int] == self.waits@[k as int]@);
            assert(before.settled[k as int] == slot_view(self.settled@[k as int]));
            let result = copy_slot(&self.settled[k]);
            proof {
                lemma_slot_update(self.results@, ordinal as int, result);
            }
            self.results.set(ordinal, result);
            k = k + 1;
        }
        let ghost results = self@.results;
        let mut failed: Vec<usize> = Vec::new();
        let mut o: usize = 0;
        assert(results.take(0) =~= Seq::empty());
        while o < self.results.len()
            invariant
                o <= self.results@.len(),
                results == self@.results,
                failed@ == failures(results.take(o as int)),
            decreases self.results@.len() - o,
        {
            proof {
                let upto = results.take(o + 1);
                assert(upto.drop_last() =~= results.take(o as int));
                assert(upto.last() == slot_view(self.results@[o as int]));
            }
            if let Some(result) = &self.results[o] {
                if result.outcome != SpawnOutcome::Completed {
                    failed.push(o);
                }
            }
            o = o + 1;
        }
        proof {
            assert(results.take(o as int) =~= results);
            lemma_failures(results);
        }
        self.failed = failed;
        if self.failed.len() == 0 || !self.gate_enabled {
            self.finish_attempts();
        } else {
            self.phase = SpawnPhase::Gate;
        }
    }

    /// The transaction was cancelled during the attempts, and found them in the
    /// given statuses.
    pub fn attempts_cancelled(&mut self, statuses: &Vec<AgentStatus>)
        requires
            old(self).wf(),
            old(self)@.phase is Attempts,
            statuses@.len() == old(self)@.waits.len(),
        ensures
            final(self).wf(),
            final(self)@ == cancel_step(old(self)@, status_models(statuses@)),
    {
        let ghost before = self@;
        let ghost models = status_models(statuses@);
        let mut k: usize = 0;
        while k < self.waits.len()
            invariant
                k <= self.waits@.len(),
                statuses@.len() == self.waits@.len(),
                models == status_models(statuses@),
                transaction_inv(before),
                self@ == (TransactionModel { results: self@.results, ..before }),
                self@.results == cancelled_results(before, models, k as int),
                self@.results.len() == before.results.len(),
            decreases self.waits@.len() - k,
        {
            let ordinal = self.waits[k].ordinal;
            assert(before.waits[k as int] == self.waits@[k as int]@);
            assert(models[k as int] == statuses@[k as int]@);
            let status = &statuses[k];
            let result = if is_spawn_terminal(status) {
                Some(result_from_status(ordinal, self.waits[k].thread_id.as_str(), status))
            } else {
                Some(aborted_result(ordinal, &Some(self.waits[k].thread_id.clone())))
            };
            proof {
                lemma_slot_update(self.results@, ordinal as int, result);
            }
            self.results.set(ordinal, result);
            k = k + 1;
        }
        self.cancelled = true;
        self.finish_attempts();
    }

    /// The call under which the user is asked.
    pub fn gate_call_id(&self) -> (r: String)
        ensures
            r@ == self@.call_id + ":failure_gate:"@ + decimal_text(self@.round as nat),
    {
        let mut id = self.call_id.clone();
        id.append(":failure_gate:");
        id.append(decimal(self.round as u64).as_str());
        id
    }

    fn begin_continue(&mut self)
        requires
            old(self).wf(),
        ensures
            final(self).wf(),
            final(self)@ == (TransactionModel {
                results: unavailable_results(old(self)@, old(self)@.failed.len() as int),
                pending: available(old(self)@, old(self)@.failed.len() as int),
                phase: SpawnPhase::Subscriptions,
                ..old(self)@
            }),
    {
        let ghost before = self@;
        let mut pending: Vec<usize> = Vec::new();
        let mut k: usize = 0;
        while k < self.failed.len()
            invariant
                k <= self.failed@.len(),
                transaction_inv(before),
                self@ == (TransactionModel { results: self@.results, ..before }),
                self@.results == unavailable_results(before, k as int),
                self@.results.len() == before.results.len(),
                pending@ == available(before, k as int),
                ordinals_below(pending@, before.tasks.len()),
                have_threads(pending@, before.current),
                forall|j: int| 0 <= j < pending@.len() && k < before.failed.len() ==> (
                #[trigger] pending@[j]) < before.failed[k as int],
            decreases self.failed@.len() - k,
        {
            let o = self.failed[k];
            assert(before.current[o as int] == text_view(self.current@[o as int]));
            if self.current[o].is_none() {
                let result = Some(
                    error_result(
                        o,
                        SpawnOutcome::Errored,
                        "child cannot continue because its thread is no longer available".to_owned(),
                        None,
                    ),
                );
                proof {
                    lemma_slot_update(self.results@, o as int, result);
                }
                self.results.set(o, result);
            } else {
                pending.push(o);
            }
            k = k + 1;
        }
        self.pending = pending;
        self.phase = SpawnPhase::Subscriptions;
    }

    /// The user was asked what to do about the failed branches.
    pub fn gate_answered(&mut self, answer: GateAnswer)
        requires
            old(self).wf(),
            old(self)@.phase is Gate,
        ensures
            final(self).wf(),
            final(self)@ == gate_step(old(self)@, answer),
    {
        let ghost before = self@;
        match answer {
            GateAnswer::Cancelled => {
                self.cancelled = true;
                self.finish_attempts();
            },
            GateAnswer::Dismissed => {
                self.gate_cancelled = true;
                self.finish_attempts();
            },
            GateAnswer::Decided(decision) => {
                if self.round < u32::MAX {
                    self.round = self.round + 1;
                }
                self.note = decision.note;
                match decision.action {
                    SpawnFailureAction::Abandon => {
                        self.finish_attempts();
                    },
                    SpawnFailureAction::Continue => {
                        let ghost counted = self@;
                        self.begin_continue();
                        proof {
                            lemma_continue_same(before, counted, before.failed.len() as int);
                        }
                    },
                    SpawnFailureAction::Retry => {
                        self.phase = SpawnPhase::RetryTeardown;
                    },
                }
            },
        }
    }

    fn report_pending(&mut self, prefix: &str, outcomes: &Vec<Option<String>>)
        requires
            old(self).wf(),
            have_threads(old(self)@.pending, old(self)@.current),
            outcomes@.len() == old(self)@.pending.len(),
        ensures
            final(self).wf(),
            final(self)@ == (TransactionModel {
                results: reported_results(
                    old(self)@,
                    prefix@,
                    option_views(outcomes@),
                    old(self)@.pending.len() as int,
                ),
                ..old(self)@
            }),
    {
        let ghost before = self@;
        let ghost views = option_views(outcomes@);
        let mut k: usize = 0;
        while k < self.pending.len()
            invariant
                k <= self.pending@.len(),
                outcomes@.len() == self.pending@.len(),
                views == option_views(outcomes@),
                transaction_inv(before),
                have_threads(before.pending, before.current),
                self@ == (TransactionModel { results: self@.results, ..before }),
                self@.results == reported_results(before, prefix@, views, k as int),
                self@.results.len() == before.results.len(),
            decreases self.pending@.len() - k,
        {
            let o = self.pending[k];
            assert(before.current[o as int] is Some) by {
                assert(before.pending[k as int] == o);
            }
            assert(before.current[o as int] == text_view(self.current@[o as int]));
            assert(views[k as int] == text_view(outcomes@[k as int]));
            if let Some(error) = &outcomes[k] {
                let result = Some(
                    error_result(
                        o,
                        SpawnOutcome::Errored,
                        prefixed(prefix, error.as_str()),
                        copy_text(&self.current[o]),
                    ),
                );
                proof {
                    lemma_slot_update(self.results@, o as int, result);
                }
                self.results.set(o, result);
            }
            k = k + 1;
        }
    }

    /// The status subscriptions of the pending branches came back, each with
    /// the error that it met.
    pub fn subscribed(&mut self, outcomes: &Vec<Option<String>>)
        requires
            old(self).wf(),
            old(self)@.phase is Subscriptions,
            outcomes@.len() == old(self)@.pending.len(),
        ensures
            final(self).wf(),
            final(self)@ == subscribed_step(old(self)@, option_views(outcomes@)),
    {
        let ghost before = self@;
        let ghost views = option_views(outcomes@);
        self.report_pending("child cannot continue: ", outcomes);
        let mut pending: Vec<usize> = Vec::new();
        let mut k: usize = 0;
        while k < self.pending.len()
            invariant
                k <= self.pending@.len(),
                outcomes@.len() == self.pending@.len(),
                views == option_views(outcomes@),
                transaction_inv(before),
                have_threads(before.pending, before.current),
                self@.pending == before.pending,
                pending@ == unhindered(before, views, k as int),
                ordinals_below(pending@, before.tasks.len()),
                have_threads(pending@, before.current),
                forall|j: int| 0 <= j < pending@.len() && k < before.pending.len() ==> (
                #[trigger] pending@[j]) < before.pending[k as int],
            decreases self.pending@.len() - k,
        {
            assert(views[k as int] == text_view(outcomes@[k as int]));
            if outcomes[k].is_none() {
                assert(before.current[before.pending[k as int] as int] is Some);
                pending.push(self.pending[k]);
            }
            k = k + 1;
        }
        self.pending = pending;
        self.phase = SpawnPhase::Reservation;
    }

    fn fail_round(&mut self)
        requires
            old(self).wf(),
        ensures
            final(self).wf(),
            final(self)@ == round_failed(old(self)@, old(self)@.results),
    {
        self.sync_progress_results();
        let waits: Vec<AttemptWait> = Vec::new();
        assert(wait_models(waits@) =~= Seq::<WaitModel>::empty());
        self.start_waiting(waits);
    }

    /// Execution slots for the pending branches were granted, or refused with
    /// an error.
    pub fn reserved(&mut self, error: &Option<String>)
        requires
            old(self).wf(),
            old(self)@.phase is Reservation,
        ensures
            final(self).wf(),
            final(self)@ == reserved_step(old(self)@, text_view(*error)),
    {
        let ghost before = self@;
        match error {
            None => {
                self.phase = SpawnPhase::Continuations;
            },
            Some(message) => {
                let mut outcomes: Vec<Option<String>> = Vec::new();
                let mut k: usize = 0;
                while k < self.pending.len()
                    invariant
                        k <= self.pending@.len(),
                        outcomes@.len() == k,
                        forall|j: int|
                            0 <= j < k ==> text_view(#[trigger] outcomes@[j]) == Some(message@),
                    decreases self.pending@.len() - k,
                {
                    outcomes.push(Some(message.clone()));
                    k = k + 1;
                }
                proof {
                    assert(option_views(outcomes@) =~= Seq::new(
                        before.pending.len(),
                        |j: int| Some(message@),
                    ));
                }
                self.report_pending("child continuation admission failed: ", &outcomes);
                self.fail_round();
            },
        }
    }

    /// What a branch that is to go on is told.
    pub fn continuation_input(&self) -> (r: String)
        ensures
            r@ == guided(CONTINUE_AFTER_FAILURE_MESSAGE@, self@.note),
    {
        let note = match &self.note {
            Some(note) => Some(note.as_str()),
            None => None,
        };
        append_failure_guidance(CONTINUE_AFTER_FAILURE_MESSAGE.to_owned(), note)
    }

    /// The continuation messages of the pending branches were delivered, each
    /// with the error that it met.
    pub fn continuations_sent(&mut self, outcomes: &Vec<Option<String>>)
        requires
            old(self).wf(),
            old(self)@.phase is Continuations,
            outcomes@.len() == old(self)@.pending.len(),
        ensures
            final(self).wf(),
            final(self)@ == continued_step(old(self)@, option_views(outcomes@)),
    {
        let ghost before = self@;
        let ghost views = option_views(outcomes@);
        let mut waits: Vec<AttemptWait> = Vec::new();
        let mut k: usize = 0;
        assert(wait_models(waits@) =~= Seq::<WaitModel>::empty());
        while k < self.pending.len()
            invariant
                k <= self.pending@.len(),
                outcomes@.len() == self.pending@.len(),
                views == option_views(outcomes@),
                transaction_inv(before),
                have_threads(before.pending, before.current),
                self@ == (TransactionModel { results: self@.results, ..before }),
                self@.results == continued_results(before, views, k as int),
                self@.results.len() == before.results.len(),
                wait_models(waits@) == resumed_waits(before, views, k as int),
                forall|j: int|
                    0 <= j < waits@.len() ==> (#[trigger] waits@[j]).ordinal < before.tasks.len(),
            decreases self.pending@.len() - k,
        {
            let o = self.pending[k];
            assert(before.current[o as int] is Some) by {
                assert(before.pending[k as int] == o);
            }
            assert(before.current[o as int] == text_view(self.current@[o as int]));
            assert(views[k as int] == text_view(outcomes@[k as int]));
            let thread = copy_text(&self.current[o]);
            match &outcomes[k] {
                Some(error) => {
                    let result = Some(
                        error_result(
                            o,
                            SpawnOutcome::Errored,
                            prefixed("child continuation failed to start: ", error.as_str()),
                            thread,
                        ),
                    );
                    proof {
                        lemma_slot_update(self.results@, o as int, result);
                    }
                    self.results.set(o, result);
                },
                None => {
                    proof {
                        lemma_slot_update(self.results@, o as int, None);
                    }
                    self.results.set(o, None);
                    let ghost sent = wait_models(waits@);
                    if let Some(thread_id) = thread {
                        waits.push(AttemptWait { ordinal: o, thread_id, resumed: true });
                    }
                    assert(wait_models(waits@) =~= sent.push(
                        WaitModel { ordinal: o, thread: thread_of(before, o), resumed: true },
                    ));
                },
            }
            k = k + 1;
        }
        let ghost results = self@.results;
        let mut f: usize = 0;
        while f < self.failed.len()
            invariant
                f <= self.failed@.len(),
                transaction_inv(before),
                results.len() == before.results.len(),
                self@ == (TransactionModel { results, shown: self@.shown, ..before }),
                self@.shown == continued_statuses(before, results, f as int),
                self@.shown.len() == before.shown.len(),
            decreases self.failed@.len() - f,
        {
            let o = self.failed[f];
            assert(results[o as int] == slot_view(self.results@[o as int]));
            let status = match &self.results[o] {
                Some(result) => result_status(result),
                None => AgentStatus::Running,
            };
            proof {
                lemma_status_update(self.shown@, o as int, status);
            }
            self.shown.set(o, status);
            f = f + 1;
        }
        self.start_waiting(waits);
    }

    /// The threads of the failed branches that are to be torn down before they
    /// start again, in order.
    pub fn retry_teardown_threads(&self) -> (r: Vec<String>)
        requires
            self.wf(),
        ensures
            text_views(r@) == available_threads(self@, self@.failed.len() as int),
    {
        let mut threads: Vec<String> = Vec::new();
        let mut k: usize = 0;
        assert(text_views(threads@) =~= Seq::<Seq<char>>::empty());
        while k < self.failed.len()
            invariant
                k <= self.failed@.len(),
                self.wf(),
                text_views(threads@) == available_threads(self@, k as int),
            decreases self.failed@.len() - k,
        {
            let o = self.failed[k];
            assert(self@.current[o as int] == text_view(self.current@[o as int]));
            if let Some(thread) = &self.current[o] {
                let ghost before = text_views(threads@);
                threads.push(thread.clone());
                assert(text_views(threads@) =~= before.push(thread@));
            }
            k = k + 1;
        }
        threads
    }

    fn drop_threads(&mut self, ordinals: &Vec<usize>)
        requires
            old(self)@.current.len() == old(self)@.tasks.len(),
            ordinals_below(ordinals@, old(self)@.tasks.len()),
        ensures
            final(self)@ == (TransactionModel {
                current: without_threads(old(self)@.current, ordinals@, ordinals@.len() as int),
                ..old(self)@
            }),
            final(self)@.current.len() == old(self)@.current.len(),
    {
        let ghost before = self@;
        let mut k: usize = 0;
        while k < ordinals.len()
            invariant
                k <= ordinals@.len(),
                before.current.len() == before.tasks.len(),
                ordinals_below(ordinals@, before.tasks.len()),
                self@ == (TransactionModel { current: self@.current, ..before }),
                self@.current == without_threads(before.current, ordinals@, k as int),
                self@.current.len() == before.current.len(),
            decreases ordinals@.len() - k,
        {
            proof {
                lemma_option_update(self.current@, ordinals@[k as int] as int, None);
            }
            self.current.set(ordinals[k], None);
            k = k + 1;
        }
    }

    /// The failed branches were torn down, or that failed with an error.
    /// `cancelled` says whether the transaction has been cancelled meanwhile.
    pub fn retry_torn_down(&mut self, error: Option<String>, cancelled: bool)
        requires
            old(self).wf(),
            old(self)@.phase is RetryTeardown,
        ensures
            final(self).wf(),
            final(self)@ == retry_teardown_step(old(self)@, text_view(error), cancelled),
    {
        if error.is_some() {
            self.fatal = error;
            self.finish_attempts();
            return ;
        }
        let failed = copy_ordinals(&self.failed);
        self.drop_threads(&failed);
        if cancelled {
            self.cancelled = true;
            self.finish_attempts();
        } else {
            self.phase = SpawnPhase::RetryAdmission;
        }
    }

    /// New starts were asked for.
    pub fn retry_admitted(&mut self, admission: RetryAdmission)
        requires
            old(self).wf(),
            old(self)@.phase is RetryAdmission,
        ensures
            final(self).wf(),
            final(self)@ == retry_admission_step(old(self)@, admission),
    {
        let ghost before = self@;
        match admission {
            RetryAdmission::RequestFailed(error) => {
                self.fatal = Some(error);
                self.finish_attempts();
            },
            RetryAdmission::Refused(error) => {
                let mut k: usize = 0;
                while k < self.failed.len()
                    invariant
                        k <= self.failed@.len(),
                        transaction_inv(before),
                        before.phase is RetryAdmission,
                        self@ == (TransactionModel { results: self@.results, ..before }),
                        self@.results == refused_results(before, error@, k as int),
                        self@.results.len() == before.results.len(),
                    decreases self.failed@.len() - k,
                {
                    let o = self.failed[k];
                    let result = Some(
                        error_result(
                            o,
                            SpawnOutcome::Errored,
                            prefixed("child retry admission failed: ", error.as_str()),
                            None,
                        ),
                    );
                    proof {
                        lemma_slot_update(self.results@, o as int, result);
                    }
                    self.results.set(o, result);
                    k = k + 1;
                }
                self.fail_round();
            },
            RetryAdmission::Admitted { cancelled } => {
                if cancelled {
                    self.cancelled = true;
                    self.finish_attempts();
                } else {
                    self.phase = SpawnPhase::RetryStarts;
                }
            },
        }
    }

    /// What a failed branch that starts again is told. `k` is its position
    /// among the failed tasks.
    pub fn retry_input(&self, k: usize) -> (r: String)
        requires
            self.wf(),
            k < self@.failed.len(),
        ensures
            r@ == guided(
                envelope(self@.tasks[self@.failed[k as int] as int], self@.tasks),
                self@.note,
            ),
    {
        let note = match &self.note {
            Some(note) => Some(note.as_str()),
            None => None,
        };
        append_failure_guidance(task_envelope(&self.tasks[self.failed[k]], &self.tasks), note)
    }

    /// The failed branches were started again, each with its new thread or the
    /// error that it met. Starts past the end of `starts` did not take place.
    pub fn retry_started(&mut self, starts: &Vec<Result<String, String>>)
        requires
            old(self).wf(),
            old(self)@.phase is RetryStarts,
            starts@.len() <= old(self)@.failed.len(),
        ensures
            final(self).wf(),
            final(self)@ == restarted_step(old(self)@, starts@),
    {
        let ghost before = self@;
        let mut pending: Vec<usize> = Vec::new();
        let mut start_failed = false;
        let mut k: usize = 0;
        while k < starts.len()
            invariant
                k <= starts@.len() <= self.failed@.len(),
                transaction_inv(before),
                self@ == (TransactionModel {
                    results: self@.results,
                    current: self@.current,
                    shown_threads: self@.shown_threads,
                    ..before
                }),
                self@.results == restart_results(before, starts@, k as int),
                self@.results.len() == before.results.len(),
                self@.current == restarted_threads(before, starts@, k as int),
                self@.current.len() == before.current.len(),
                self@.shown_threads == restarted_shown(before, starts@, k as int),
                self@.shown_threads.len() == before.shown_threads.len(),
                pending@ == restarted(before, starts@, k as int),
                ordinals_below(pending@, before.tasks.len()),
                have_threads(pending@, self@.current),
                start_failed == exists|j: int| 0 <= j < k && #[trigger] starts@[j] is Err,
                forall|j: int| 0 <= j < pending@.len() && k < before.failed.len() ==> (
                #[trigger] pending@[j]) < before.failed[k as int],
            decreases starts@.len() - k,
        {
            let o = self.failed[k];
            match &starts[k] {
                Ok(thread) => {
                    let ghost earlier = self@.current;
                    proof {
                        lemma_option_update(self.current@, o as int, Some(*thread));
                        lemma_text_update(self.shown_threads@, o as int, *thread);
                    }
                    self.current.set(o, Some(thread.clone()));
                    self.shown_threads.set(o, thread.clone());
                    let ghost listed = pending@;
                    pending.push(o);
                    proof {
                        assert forall|j: int| 0 <= j < pending@.len() implies self@.current[(
                        #[trigger] pending@[j]) as int] is Some by {
                            if j < listed.len() {
                                assert(pending@[j] == listed[j]);
                                assert(earlier[listed[j] as int] is Some);
                            }
                        }
                    }
                },
                Err(error) => {
                    start_failed = true;
                    let result = Some(
                        error_result(
                            o,
                            SpawnOutcome::Errored,
                            prefixed("child retry failed to start: ", error.as_str()),
                            None,
                        ),
                    );
                    proof {
                        lemma_slot_update(self.results@, o as int, result);
                        assert(starts@[k as int] is Err);
                    }
                    self.results.set(o, result);
                },
            }
            k = k + 1;
        }
        self.pending = pending;
        self.phase = if start_failed {
            SpawnPhase::RetryRollback
        } else {
            SpawnPhase::RetryStatuses
        };
    }

    /// The new starts were torn down because one of their siblings failed, or
    /// that failed with an error.
    pub fn retry_rolled_back(&mut self, error: Option<String>)
        requires
            old(self).wf(),
            old(self)@.phase is RetryRollback,
        ensures
            final(self).wf(),
            final(self)@ == rollback_step(old(self)@, text_view(error)),
    {
        if error.is_some() {
            self.fatal = error;
            self.finish_attempts();
            return ;
        }
        let ghost before = self@;
        let mut k: usize = 0;
        while k < self.pending.len()
            invariant
                k <= self.pending@.len(),
                transaction_inv(before),
                have_threads(before.pending, before.current),
                self@ == (TransactionModel { results: self@.results, ..before }),
                self@.results == undone_results(before, k as int),
                self@.results.len() == before.results.len(),
            decreases self.pending@.len() - k,
        {
            let o = self.pending[k];
            assert(before.current[o as int] is Some) by {
                assert(before.pending[k as int] == o);
            }
            assert(before.current[o as int] == text_view(self.current@[o as int]));
            let result = Some(
                error_result(
                    o,
                    SpawnOutcome::Aborted,
                    "child retry aborted because another retry child failed to start".to_owned(),
                    copy_text(&self.current[o]),
                ),
            );
            proof {
                lemma_slot_update(self.results@, o as int, result);
            }
            self.results.set(o, result);
            k = k + 1;
        }
        let pending = copy_ordinals(&self.pending);
        self.drop_threads(&pending);
        self.phase = SpawnPhase::Attempts;
        self.fail_round();
    }

    /// The first statuses of the new starts.
    pub fn retry_statuses(&mut self, statuses: &Vec<AgentStatus>)
        requires
            old(self).wf(),
            old(self)@.phase is RetryStatuses,
            statuses@.len() == old(self)@.pending.len(),
        ensures
            final(self).wf(),
            final(self)@ == retry_statuses_step(old(self)@, status_models(statuses@)),
    {
        let ghost before = self@;
        let ghost models = status_models(statuses@);
        let mut waits: Vec<AttemptWait> = Vec::new();
        let mut k: usize = 0;
        while k < self.pending.len()
            invariant
                k <= self.pending@.len(),
                statuses@.len() == self.pending@.len(),
                models == status_models(statuses@),
                transaction_inv(before),
                have_threads(before.pending, before.current),
                self@ == (TransactionModel {
                    results: self@.results,
                    shown: self@.shown,
                    ..before
                }),
                self@.results == cleared_results(before, k as int),
                self@.results.len() == before.results.len(),
                self@.shown == restarted_statuses(before, models, k as int),
                self@.shown.len() == before.shown.len(),
                waits@.len() == k,
                forall|j: int|
                    0 <= j < k ==> (#[trigger] waits@[j])@ == started_waits(before)[j],
            decreases self.pending@.len() - k,
        {
            let o = self.pending[k];
            assert(before.current[o as int] is Some) by {
                assert(before.pending[k as int] == o);
            }
            assert(before.current[o as int] == text_view(self.current@[o as int]));
            assert(models[k as int] == statuses@[k as int]@);
            let thread_id = match &self.current[o] {
                Some(thread) => thread.clone(),
                None => String::new(),
            };
            let status = normalized_progress_status(o, thread_id.as_str(), statuses[k].copy());
            proof {
                lemma_slot_update(self.results@, o as int, None);
                lemma_status_update(self.shown@, o as int, status);
            }
            self.results.set(o, None);
            self.shown.set(o, status);
            waits.push(AttemptWait { ordinal: o, thread_id, resumed: false });
            k = k + 1;
        }
        assert(wait_models(waits@) =~= started_waits(before));
        self.start_waiting(waits);
    }

    /// The threads that the final teardown stops, in task order.
    pub fn teardown_threads(&self) -> (r: Vec<String>)
        requires
            self.wf(),
        ensures
            text_views(r@) == present(self@.current),
    {
        let mut threads: Vec<String> = Vec::new();
        let mut o: usize = 0;
        proof {
            assert(self@.current.take(0) =~= Seq::empty());
            assert(text_views(threads@) =~= Seq::<Seq<char>>::empty());
        }
        while o < self.current.len()
            invariant
                o <= self.current@.len(),
                text_views(threads@) == present(self@.current.take(o as int)),
            decreases self.current@.len() - o,
        {
            proof {
                let upto = self@.current.take(o + 1);
                assert(upto.drop_last() =~= self@.current.take(o as int));
                assert(upto.last() == text_view(self.current@[o as int]));
            }
            if let Some(thread) = &self.current[o] {
                let ghost before = text_views(threads@);
                threads.push(thread.clone());
                assert(text_views(threads@) =~= before.push(thread@));
            }
            o = o + 1;
        }
        assert(self@.current.take(o as int) =~= self@.current);
        threads
    }

    /// Everything was torn down, or that failed with an error: what the
    /// transaction comes to.
    pub fn finish(self, schema: &str, teardown: Option<String>) -> (r: Result<SpawnReceipt, String>)
        requires
            self.wf(),
            self@.phase is Teardown,
        ensures
            match r {
                Ok(receipt) => receipt.schema@ == schema@ && verdict(self@, text_view(teardown))
                    == Ok::<Seq<ResultModel>, Seq<char>>(result_models(receipt.results@)),
                Err(message) => verdict(self@, text_view(teardown)) == Err::<
                    Seq<ResultModel>,
                    Seq<char>,
                >(message@),
            },
    {
        match self.fatal {
            Some(error) => match teardown {
                None => Err(error),
                Some(cleanup) => {
                    let mut message = error;
                    message.append("; cleanup failed: ");
                    message.append(cleanup.as_str());
                    Err(message)
                },
            },
            None => match teardown {
                Some(error) => Err(error),
                None => {
                    if self.gate_cancelled {
                        Err(
                            "spine.spawn failure gate was cancelled without a selection".to_owned(),
                        )
                    } else {
                        Ok(finish_receipt(schema, self.results))
                    }
                },
            },
        }
    }
}

/// The threads of those of the first `k` failed tasks that have one.
pub open spec fn available_threads(s: TransactionModel, k: int) -> Seq<Seq<char>>
    decreases k,
{
    if k <= 0 {
        Seq::empty()
    } else {
        match s.current[s.failed[k - 1] as int] {
            Some(thread) => available_threads(s, k - 1).push(thread),
            None => available_threads(s, k - 1),
        }
    }
}

/// The values that are there, in order.
pub open spec fn present(values: Seq<Option<Seq<char>>>) -> Seq<Seq<char>>
    decreases values.len(),
{
    if values.len() == 0 {
        Seq::empty()
    } else {
        match values.last() {
            Some(value) => present(values.drop_last()).push(value),
            None => present(values.drop_last()),
        }
    }
}

proof fn lemma_continue_same(s: TransactionModel, t: TransactionModel, k: int)
    requires
        t.results == s.results,
        t.failed == s.failed,
        t.current == s.current,
    ensures
        unavailable_results(t, k) == unavailable_results(s, k),
        available(t, k) == available(s, k),
    decreases k,
{
    if k > 0 {
        lemma_continue_same(s, t, k - 1);
    }
}

fn copy_ordinals(ordinals: &Vec<usize>) -> (r: Vec<usize>)
    ensures
        r@ == ordinals@,
{
    let mut out: Vec<usize> = Vec::new();
    let mut k: usize = 0;
    while k < ordinals.len()
        invariant
            k <= ordinals@.len(),
            out@ == ordinals@.take(k as int),
        decreases ordinals@.len() - k,
    {
        out.push(ordinals[k]);
        assert(ordinals@.take(k + 1) =~= ordinals@.take(k as int).push(ordinals@[k as int]));
        k = k + 1;
    }
    assert(ordinals@.take(k as int) =~= ordinals@);
    out
}

/// Accepts the paths under which failed branches would start again: each must
/// be the path that the branch had.
pub fn check_retry_paths(
    child_paths: &Vec<String>,
    failed: &Vec<usize>,
    sources: &Vec<Result<Option<String>, String>>,
) -> (r: Result<(), String>)
    requires
        sources@.len() == failed@.len(),
        ordinals_below(failed@, child_paths@.len()),
    ensures
        match r {
            Ok(()) => forall|k: int|
                0 <= k < sources@.len() ==> retry_path_error(
                    #[trigger] sources@[k],
                    child_paths@[failed@[k] as int],
                ) is None,
            Err(message) => exists|k: int|
                0 <= k < sources@.len() && retry_path_error(
                    #[trigger] sources@[k],
                    child_paths@[failed@[k] as int],
                ) == Some(message@) && forall|j: int|
                    0 <= j < k ==> retry_path_error(
                        #[trigger] sources@[j],
                        child_paths@[failed@[j] as int],
                    ) is None,
        },
{
    let mut k: usize = 0;
    while k < sources.len()
        invariant
            k <= sources@.len() == failed@.len(),
            ordinals_below(failed@, child_paths@.len()),
            forall|j: int|
                0 <= j < k ==> retry_path_error(
                    #[trigger] sources@[j],
                    child_paths@[failed@[j] as int],
                ) is None,
        decreases sources@.len() - k,
    {
        assert(failed@[k as int] < child_paths@.len());
        match &sources[k] {
            Err(error) => {
                assert(retry_path_error(sources@[k as int], child_paths@[failed@[k as int] as int])
                    == Some(error@));
                return Err(error.clone());
            },
            Ok(None) => {
                let message = "spine.spawn retry child is missing an agent path".to_owned();
                assert(retry_path_error(sources@[k as int], child_paths@[failed@[k as int] as int])
                    == Some(message@));
                return Err(message);
            },
            Ok(Some(path)) => {
                if !same_text(path.as_str(), child_paths[failed[k]].as_str()) {
                    let message = "spine.spawn retry changed a child agent path".to_owned();
                    assert(retry_path_error(
                        sources@[k as int],
                        child_paths@[failed@[k as int] as int],
                    ) == Some(message@));
                    return Err(message);
                }
            },
        }
        k = k + 1;
    }
    Ok(())
}

/// What is wrong with the path under which a branch would start again.
pub open spec fn retry_path_error(source: Result<Option<String>, String>, path: String) -> Option<
    Seq<char>,
> {
    match source {
        Err(error) => Some(error@),
        Ok(None) => Some("spine.spawn retry child is missing an agent path"@),
        Ok(Some(found)) => if found@ == path@ {
            None
        } else {
            Some("spine.spawn retry changed a child agent path"@)
        },
    }
}

} // verus!
