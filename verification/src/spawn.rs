//! Spawned branches: their tasks, their terminal results and the receipt that
//! answers a spawn request.

use crate::fragments::SpawnOutcome;
use crate::text::{decimal, is_blank};
use vstd::prelude::*;

verus! {

use crate::shapes::text_view;
use crate::text::{blank, decimal_text};

/// What a branch is told before its name.
pub const ENVELOPE_OPENING: &'static str = "You are a spawned execution branch. Your role is to complete exactly the assignment below \
and return bounded terminal memory to the spawning continuation.\n\nYou are: ";

/// What stands between a branch's name and its peers.
pub const ENVELOPE_PEERS: &'static str = "\n\nPeer branches in this spawn:\n";

/// What stands between the peers and the assignment.
pub const ENVELOPE_CONTRACT: &'static str = "\n\nThe assignment is already an active branch scope. Begin the assigned work directly. Use \
spine.open, spine.close, and spine.next only to manage genuine descendant work within this \
assignment.\n\nExecutable work is defined by the assignment. Inherited context supplies constraints \
and evidence for that work.\n\nWhen the assignment declares a collaboration contract, follow \
its named root, peer roles, artifact format, update/read protocol, synchronization points, \
and bounded fallback. Inspect the coordination root before substantive work. Coordinate through \
it to minimize unnecessary duplicate work: respect assigned scopes, share reusable evidence \
early, and independently verify load-bearing or disputed claims. Within the coordination \
root, write only your declared single-writer artifact and read peer artifacts through the \
declared protocol, even when the investigated source and evidence are otherwise read-only. \
Unless the contract provides locking or atomic append, preserve your artifact append-only. \
Publish findings, conflicts, or requests useful to peers at the declared synchronization \
points. Before returning your final response, perform the declared final peer read and state \
which peer deltas you incorporated. Never write a peer artifact, let collaboration expand \
the assignment, make completion depend on peer state, or treat collaboration artifacts as \
correctness-critical evidence. If the root or peer state is unavailable or incomplete, use \
the declared bounded fallback; do not invent another coordination path.\n\nOther shared-workspace \
changes remain context for the assignment and do not add executable work. Production-file \
ownership and any integration responsibility remain exactly as declared in the assignment.\n\nTreat \
each <spine_tran_status> update as task-tree parser telemetry for this branch session. Across \
status updates, executable work remains defined by the assignment.\n\nComplete this branch \
by returning exactly one non-empty, tool-free assistant final response containing terminal \
memory. After returning it, execution ends.\n\nAssignment:\n";

/// What a branch is told that spoke before it was done.
pub const CORRECTION_MESSAGE: &'static str = "This spawned execution branch remains active. Continue exactly the declared\nassignment and \
follow its collaboration contract when one is declared. When the\nassignment is complete \
or precisely bounded, return exactly one non-empty,\ntool-free assistant final response containing \
terminal memory. That response\nends this branch execution.";

/// What a failed branch is told when it is to go on.
pub const CONTINUE_AFTER_FAILURE_MESSAGE: &'static str = "Continue the same assignment from this branch's existing context. Preserve useful progress \
from the failed turn, finish the remaining work, and return the required terminal memory.";

/// One task of a spawn request.
#[derive(Debug, PartialEq, Eq)]
pub struct SpawnTask {
    pub summary: String,
    pub prompt: String,
}

impl SpawnTask {
    /// A copy of the task.
    pub fn copy(&self) -> (r: SpawnTask)
        ensures
            r == *self,
    {
        SpawnTask { summary: self.summary.clone(), prompt: self.prompt.clone() }
    }
}

/// The status of a branch's agent.
#[derive(Debug, PartialEq, Eq)]
pub enum AgentStatus {
    PendingInit,
    Running,
    Interrupted,
    Completed(Option<String>),
    Errored(String),
    Shutdown,
    NotFound,
}

/// The model of an [`AgentStatus`].
pub ghost enum StatusModel {
    PendingInit,
    Running,
    Interrupted,
    Completed(Option<Seq<char>>),
    Errored(Seq<char>),
    Shutdown,
    NotFound,
}

impl View for AgentStatus {
    type V = StatusModel;

    open spec fn view(&self) -> StatusModel {
        match *self {
            AgentStatus::PendingInit => StatusModel::PendingInit,
            AgentStatus::Running => StatusModel::Running,
            AgentStatus::Interrupted => StatusModel::Interrupted,
            AgentStatus::Completed(memory) => StatusModel::Completed(text_view(memory)),
            AgentStatus::Errored(error) => StatusModel::Errored(error@),
            AgentStatus::Shutdown => StatusModel::Shutdown,
            AgentStatus::NotFound => StatusModel::NotFound,
        }
    }
}

impl AgentStatus {
    /// A copy of the status.
    pub fn copy(&self) -> (r: AgentStatus)
        ensures
            r == *self,
    {
        match self {
            AgentStatus::PendingInit => AgentStatus::PendingInit,
            AgentStatus::Running => AgentStatus::Running,
            AgentStatus::Interrupted => AgentStatus::Interrupted,
            AgentStatus::Completed(Some(memory)) => AgentStatus::Completed(Some(memory.clone())),
            AgentStatus::Completed(None) => AgentStatus::Completed(None),
            AgentStatus::Errored(error) => AgentStatus::Errored(error.clone()),
            AgentStatus::Shutdown => AgentStatus::Shutdown,
            AgentStatus::NotFound => AgentStatus::NotFound,
        }
    }
}

/// How one branch ended.
#[derive(Debug, PartialEq, Eq)]
pub struct SpawnResult {
    pub ordinal: u32,
    pub outcome: SpawnOutcome,
    pub memory_body: String,
    pub diagnostic: Option<String>,
    pub execution_ref: Option<String>,
}

/// The model of a [`SpawnResult`].
pub ghost struct ResultModel {
    pub ordinal: u32,
    pub outcome: SpawnOutcome,
    pub memory_body: Seq<char>,
    pub diagnostic: Option<Seq<char>>,
    pub execution_ref: Option<Seq<char>>,
}

impl View for SpawnResult {
    type V = ResultModel;

    open spec fn view(&self) -> ResultModel {
        ResultModel {
            ordinal: self.ordinal,
            outcome: self.outcome,
            memory_body: self.memory_body@,
            diagnostic: text_view(self.diagnostic),
            execution_ref: text_view(self.execution_ref),
        }
    }
}

impl SpawnResult {
    /// A copy of the result.
    pub fn copy(&self) -> (r: SpawnResult)
        ensures
            r == *self,
    {
        SpawnResult {
            ordinal: self.ordinal,
            outcome: self.outcome,
            memory_body: self.memory_body.clone(),
            diagnostic: copy_text(&self.diagnostic),
            execution_ref: copy_text(&self.execution_ref),
        }
    }
}

/// A copy of an optional text.
pub fn copy_text(value: &Option<String>) -> (r: Option<String>)
    ensures
        r == *value,
{
    match value {
        Some(text) => Some(text.clone()),
        None => None,
    }
}

/// The answer to a spawn request: one result for each task, in task order.
#[derive(Debug, PartialEq, Eq)]
pub struct SpawnReceipt {
    pub schema: String,
    pub results: Vec<SpawnResult>,
}

/// The models of a list of results.
pub open spec fn result_models(results: Seq<SpawnResult>) -> Seq<ResultModel> {
    results.map_values(|result: SpawnResult| result@)
}

/// The model of an optional result.
pub open spec fn slot_view(result: Option<SpawnResult>) -> Option<ResultModel> {
    match result {
        Some(result) => Some(result@),
        None => None,
    }
}

/// The models of a list of result slots.
pub open spec fn slot_models(results: Seq<Option<SpawnResult>>) -> Seq<Option<ResultModel>> {
    results.map_values(|result: Option<SpawnResult>| slot_view(result))
}

/// A result that reports a failure: the diagnostic is also the memory.
pub open spec fn failure(
    ordinal: usize,
    outcome: SpawnOutcome,
    diagnostic: Seq<char>,
    execution_ref: Option<Seq<char>>,
) -> ResultModel {
    ResultModel {
        ordinal: ordinal as u32,
        outcome,
        memory_body: diagnostic,
        diagnostic: Some(diagnostic),
        execution_ref,
    }
}

pub fn error_result(
    ordinal: usize,
    outcome: SpawnOutcome,
    diagnostic: String,
    execution_ref: Option<String>,
) -> (r: SpawnResult)
    ensures
        r@ == failure(ordinal, outcome, diagnostic@, text_view(execution_ref)),
{
    SpawnResult {
        ordinal: ordinal as u32,
        outcome,
        memory_body: diagnostic.clone(),
        diagnostic: Some(diagnostic),
        execution_ref,
    }
}

/// The result of a branch whose transaction was cancelled.
pub open spec fn aborted(ordinal: usize, thread: Option<Seq<char>>) -> ResultModel {
    failure(
        ordinal,
        SpawnOutcome::Aborted,
        "branch aborted because the originating spine.spawn transaction was cancelled"@,
        thread,
    )
}

pub fn aborted_result(ordinal: usize, thread_id: &Option<String>) -> (r: SpawnResult)
    ensures
        r@ == aborted(ordinal, text_view(*thread_id)),
{
    error_result(
        ordinal,
        SpawnOutcome::Aborted,
        "branch aborted because the originating spine.spawn transaction was cancelled".to_owned(),
        copy_text(thread_id),
    )
}

/// Whether a branch has stopped.
pub open spec fn terminal(status: StatusModel) -> bool {
    !(status is PendingInit || status is Running)
}

pub fn is_spawn_terminal(status: &AgentStatus) -> (r: bool)
    ensures
        r == terminal(status@),
{
    match status {
        AgentStatus::PendingInit | AgentStatus::Running => false,
        _ => true,
    }
}

/// Whether a branch stopped without a final memory.
pub open spec fn missing_final_message(status: StatusModel) -> bool {
    status matches StatusModel::Completed(memory) && (memory matches Some(text) ==> blank(text))
}

pub fn is_missing_final_message(status: &AgentStatus) -> (r: bool)
    ensures
        r == missing_final_message(status@),
{
    match status {
        AgentStatus::Completed(Some(memory)) => is_blank(memory.as_str()),
        AgentStatus::Completed(None) => true,
        _ => false,
    }
}

/// The result that a branch's final status amounts to.
pub open spec fn status_result(ordinal: usize, thread: Seq<char>, status: StatusModel)
    -> ResultModel {
    match status {
        StatusModel::Completed(Some(memory)) => if !blank(memory) {
            ResultModel {
                ordinal: ordinal as u32,
                outcome: SpawnOutcome::Completed,
                memory_body: memory,
                diagnostic: None,
                execution_ref: Some(thread),
            }
        } else {
            failure(
                ordinal,
                SpawnOutcome::Errored,
                "child completed without a non-empty final memory"@,
                Some(thread),
            )
        },
        StatusModel::Completed(None) => failure(
            ordinal,
            SpawnOutcome::Errored,
            "child completed without a non-empty final memory"@,
            Some(thread),
        ),
        StatusModel::Errored(error) => failure(
            ordinal,
            SpawnOutcome::Errored,
            "child errored: "@ + error,
            Some(thread),
        ),
        StatusModel::Shutdown => failure(
            ordinal,
            SpawnOutcome::Aborted,
            "child shut down before returning final memory"@,
            Some(thread),
        ),
        StatusModel::NotFound => failure(
            ordinal,
            SpawnOutcome::Errored,
            "child was not found before returning final memory"@,
            Some(thread),
        ),
        StatusModel::PendingInit => failure(
            ordinal,
            SpawnOutcome::Aborted,
            "child did not reach a terminal status: PendingInit"@,
            Some(thread),
        ),
        StatusModel::Running => failure(
            ordinal,
            SpawnOutcome::Aborted,
            "child did not reach a terminal status: Running"@,
            Some(thread),
        ),
        StatusModel::Interrupted => failure(
            ordinal,
            SpawnOutcome::Aborted,
            "child did not reach a terminal status: Interrupted"@,
            Some(thread),
        ),
    }
}

pub fn result_from_status(ordinal: usize, thread_id: &str, status: &AgentStatus) -> (r: SpawnResult)
    ensures
        r@ == status_result(ordinal, thread_id@, status@),
{
    let execution_ref = Some(thread_id.to_owned());
    match status {
        AgentStatus::Completed(Some(memory)) => {
            if !is_blank(memory.as_str()) {
                SpawnResult {
                    ordinal: ordinal as u32,
                    outcome: SpawnOutcome::Completed,
                    memory_body: memory.clone(),
                    diagnostic: None,
                    execution_ref,
                }
            } else {
                error_result(
                    ordinal,
                    SpawnOutcome::Errored,
                    "child completed without a non-empty final memory".to_owned(),
                    execution_ref,
                )
            }
        },
        AgentStatus::Completed(None) => error_result(
            ordinal,
            SpawnOutcome::Errored,
            "child completed without a non-empty final memory".to_owned(),
            execution_ref,
        ),
        AgentStatus::Errored(error) => {
            let mut diagnostic = String::from_str("child errored: ");
            diagnostic.append(error.as_str());
            error_result(ordinal, SpawnOutcome::Errored, diagnostic, execution_ref)
        },
        AgentStatus::Shutdown => error_result(
            ordinal,
            SpawnOutcome::Aborted,
            "child shut down before returning final memory".to_owned(),
            execution_ref,
        ),
        AgentStatus::NotFound => error_result(
            ordinal,
            SpawnOutcome::Errored,
            "child was not found before returning final memory".to_owned(),
            execution_ref,
        ),
        AgentStatus::PendingInit => error_result(
            ordinal,
            SpawnOutcome::Aborted,
            "child did not reach a terminal status: PendingInit".to_owned(),
            execution_ref,
        ),
        AgentStatus::Running => error_result(
            ordinal,
            SpawnOutcome::Aborted,
            "child did not reach a terminal status: Running".to_owned(),
            execution_ref,
        ),
        AgentStatus::Interrupted => error_result(
            ordinal,
            SpawnOutcome::Aborted,
            "child did not reach a terminal status: Interrupted".to_owned(),
            execution_ref,
        ),
    }
}

/// The status under which progress shows a result.
pub open spec fn shown_status(result: ResultModel) -> StatusModel {
    match result.outcome {
        SpawnOutcome::Completed => StatusModel::Completed(None),
        SpawnOutcome::Errored => StatusModel::Errored(
            match result.diagnostic {
                Some(diagnostic) => diagnostic,
                None => result.memory_body,
            },
        ),
        SpawnOutcome::Aborted => StatusModel::Shutdown,
    }
}

pub fn result_status(result: &SpawnResult) -> (r: AgentStatus)
    ensures
        r@ == shown_status(result@),
{
    match result.outcome {
        SpawnOutcome::Completed => AgentStatus::Completed(None),
        SpawnOutcome::Errored => AgentStatus::Errored(
            match &result.diagnostic {
                Some(diagnostic) => diagnostic.clone(),
                None => result.memory_body.clone(),
            },
        ),
        SpawnOutcome::Aborted => AgentStatus::Shutdown,
    }
}

/// The status that progress shows for a branch in the given status: a final
/// one is shown as the result that it amounts to.
pub open spec fn progress_status(ordinal: usize, thread: Seq<char>, status: StatusModel)
    -> StatusModel {
    if terminal(status) {
        shown_status(status_result(ordinal, thread, status))
    } else {
        status
    }
}

pub fn normalized_progress_status(ordinal: usize, thread_id: &str, status: AgentStatus) -> (r:
    AgentStatus)
    ensures
        r@ == progress_status(ordinal, thread_id@, status@),
{
    if is_spawn_terminal(&status) {
        result_status(&result_from_status(ordinal, thread_id, &status))
    } else {
        status
    }
}

/// The result that stands in for one that was lost.
pub open spec fn lost(ordinal: usize) -> ResultModel {
    failure(
        ordinal,
        SpawnOutcome::Errored,
        "coordinator lost the child terminal result"@,
        None,
    )
}

/// The results of a receipt: every slot filled, in order.
pub open spec fn filled(results: Seq<Option<ResultModel>>) -> Seq<ResultModel> {
    Seq::new(
        results.len(),
        |i: int|
            match results[i] {
                Some(result) => result,
                None => lost(i as usize),
            },
    )
}

/// Assembles the receipt of a transaction: a slot without a result reports the
/// loss as an error.
pub fn finish_receipt(schema: &str, results: Vec<Option<SpawnResult>>) -> (r: SpawnReceipt)
    ensures
        r.schema@ == schema@,
        result_models(r.results@) == filled(slot_models(results@)),
{
    let ghost slots = results@;
    let mut remaining = results;
    let mut reversed: Vec<SpawnResult> = Vec::new();
    let total = remaining.len();
    while remaining.len() > 0
        invariant
            remaining@.len() + reversed@.len() == slots.len(),
            slots.len() <= usize::MAX,
            remaining@ == slots.take(remaining@.len() as int),
            forall|k: int|
                0 <= k < reversed@.len() ==> (#[trigger] reversed@[k])@ == filled(
                    slot_models(slots),
                )[slots.len() - 1 - k],
        decreases remaining@.len(),
    {
        let ordinal = remaining.len() - 1;
        let slot = remaining.pop();
        let result = match slot {
            Some(Some(result)) => result,
            _ => error_result(
                ordinal,
                SpawnOutcome::Errored,
                "coordinator lost the child terminal result".to_owned(),
                None,
            ),
        };
        proof {
            assert(slot_models(slots)[ordinal as int] == slot_view(slots[ordinal as int]));
            assert(remaining@ =~= slots.take(remaining@.len() as int));
        }
        reversed.push(result);
    }
    let mut out: Vec<SpawnResult> = Vec::new();
    while reversed.len() > 0
        invariant
            reversed@.len() + out@.len() == slots.len(),
            forall|k: int|
                0 <= k < reversed@.len() ==> (#[trigger] reversed@[k])@ == filled(
                    slot_models(slots),
                )[slots.len() - 1 - k],
            forall|k: int|
                0 <= k < out@.len() ==> (#[trigger] out@[k])@ == filled(slot_models(slots))[k],
        decreases reversed@.len(),
    {
        if let Some(result) = reversed.pop() {
            out.push(result);
        }
    }
    assert(result_models(out@) =~= filled(slot_models(slots)));
    SpawnReceipt { schema: schema.to_owned(), results: out }
}

/// Hands a receipt out, unless the protocol's own validation refused it.
pub fn validated_receipt(receipt: SpawnReceipt, validation: Result<(), String>) -> (r: Result<
    SpawnReceipt,
    String,
>)
    ensures
        match validation {
            Ok(()) => r == Ok::<SpawnReceipt, String>(receipt),
            Err(error) => r matches Err(message) && message@
                == "spine.spawn produced an invalid receipt: "@ + error@,
        },
{
    match validation {
        Ok(()) => Ok(receipt),
        Err(error) => {
            let mut message = String::from_str("spine.spawn produced an invalid receipt: ");
            message.append(error.as_str());
            Err(message)
        },
    }
}

/// Why a task was not started, where the batch found no capacity.
pub open spec fn capacity_text(
    ordinal: nat,
    task_count: nat,
    summary: Seq<char>,
    max_threads: nat,
) -> Seq<char> {
    "spine.spawn task "@ + decimal_text(ordinal + 1) + "/"@ + decimal_text(task_count) + " (`"@
        + summary + "`) was not started: aggregate admission requested "@ + decimal_text(task_count)
        + " child agents, but shared capacity was unavailable under the configured limit of "@
        + decimal_text(max_threads)
        + " concurrent child agents. Admission is all-or-nothing, so no child agents from this batch were created."@
}

/// The result slots of a batch that found no capacity.
pub open spec fn capacity_slots(tasks: Seq<SpawnTask>, max_threads: nat) -> Seq<
    Option<ResultModel>,
> {
    Seq::new(
        tasks.len(),
        |i: int|
            Some(
                failure(
                    i as usize,
                    SpawnOutcome::Errored,
                    capacity_text(i as nat, tasks.len(), tasks[i].summary@, max_threads),
                    None,
                ),
            ),
    )
}

fn capacity_diagnostic(ordinal: usize, task_count: usize, summary: &str, max_threads: usize) -> (r:
    String)
    requires
        ordinal < task_count,
    ensures
        r@ == capacity_text(ordinal as nat, task_count as nat, summary@, max_threads as nat),
{
    let mut text = String::from_str("spine.spawn task ");
    text.append(decimal((ordinal + 1) as u64).as_str());
    text.append("/");
    text.append(decimal(task_count as u64).as_str());
    text.append(" (`");
    text.append(summary);
    text.append("`) was not started: aggregate admission requested ");
    text.append(decimal(task_count as u64).as_str());
    text.append(
        " child agents, but shared capacity was unavailable under the configured limit of ",
    );
    text.append(decimal(max_threads as u64).as_str());
    text.append(
        " concurrent child agents. Admission is all-or-nothing, so no child agents from this batch were created.",
    );
    text
}

/// The receipt of a batch that found no capacity: every task in order, none of
/// them with an execution.
pub fn capacity_rejection_receipt(schema: &str, tasks: &Vec<SpawnTask>, max_threads: usize) -> (r:
    SpawnReceipt)
    ensures
        r.schema@ == schema@,
        result_models(r.results@) == filled(capacity_slots(tasks@, max_threads as nat)),
{
    let mut slots: Vec<Option<SpawnResult>> = Vec::new();
    let mut i: usize = 0;
    while i < tasks.len()
        invariant
            i <= tasks@.len(),
            slots@.len() == i,
            forall|k: int|
                0 <= k < i ==> slot_view(#[trigger] slots@[k]) == capacity_slots(
                    tasks@,
                    max_threads as nat,
                )[k],
        decreases tasks@.len() - i,
    {
        let diagnostic = capacity_diagnostic(
            i,
            tasks.len(),
            tasks[i].summary.as_str(),
            max_threads,
        );
        slots.push(Some(error_result(i, SpawnOutcome::Errored, diagnostic, None)));
        i = i + 1;
    }
    assert(slot_models(slots@) =~= capacity_slots(tasks@, max_threads as nat));
    finish_receipt(schema, slots)
}

/// One task as progress shows it.
#[derive(Debug, PartialEq, Eq)]
pub struct SpineSpawnTaskProgress {
    pub ordinal: u32,
    pub summary: String,
    pub thread_id: String,
    pub agent_path: String,
    pub status: AgentStatus,
}

#[derive(Debug, PartialEq, Eq)]
pub struct SpineSpawnProgressEvent {
    pub call_id: String,
    pub tasks: Vec<SpineSpawnTaskProgress>,
}

/// Whether a progress entry shows the given task.
pub open spec fn shows_task(
    entry: SpineSpawnTaskProgress,
    ordinal: int,
    task: SpawnTask,
    thread: String,
    path: String,
    status: AgentStatus,
) -> bool {
    &&& entry.ordinal == ordinal as u32
    &&& entry.summary@ == task.summary@
    &&& entry.thread_id@ == thread@
    &&& entry.agent_path@ == path@
    &&& entry.status@ == status@
}

/// How many tasks have a thread, a path and a status.
pub open spec fn shown_count(
    tasks: Seq<SpawnTask>,
    threads: Seq<String>,
    paths: Seq<String>,
    statuses: Seq<AgentStatus>,
) -> int {
    let a = if tasks.len() <= threads.len() {
        tasks.len() as int
    } else {
        threads.len() as int
    };
    let b = if a <= paths.len() {
        a
    } else {
        paths.len() as int
    };
    if b <= statuses.len() {
        b
    } else {
        statuses.len() as int
    }
}

/// The progress of a batch, task by task.
pub fn spawn_progress_event(
    call_id: &str,
    tasks: &Vec<SpawnTask>,
    thread_ids: &Vec<String>,
    paths: &Vec<String>,
    statuses: &Vec<AgentStatus>,
) -> (r: SpineSpawnProgressEvent)
    ensures
        r.call_id@ == call_id@,
        r.tasks@.len() == shown_count(tasks@, thread_ids@, paths@, statuses@),
        forall|i: int|
            0 <= i < r.tasks@.len() ==> shows_task(
                #[trigger] r.tasks@[i],
                i,
                tasks@[i],
                thread_ids@[i],
                paths@[i],
                statuses@[i],
            ),
{
    let mut shown: Vec<SpineSpawnTaskProgress> = Vec::new();
    let mut i: usize = 0;
    while i < tasks.len() && i < thread_ids.len() && i < paths.len() && i < statuses.len()
        invariant
            i <= shown_count(tasks@, thread_ids@, paths@, statuses@),
            shown@.len() == i,
            forall|k: int|
                0 <= k < i ==> shows_task(
                    #[trigger] shown@[k],
                    k,
                    tasks@[k],
                    thread_ids@[k],
                    paths@[k],
                    statuses@[k],
                ),
        decreases tasks@.len() - i,
    {
        shown.push(
            SpineSpawnTaskProgress {
                ordinal: i as u32,
                summary: tasks[i].summary.clone(),
                thread_id: thread_ids[i].clone(),
                agent_path: paths[i].clone(),
                status: statuses[i].copy(),
            },
        );
        i = i + 1;
    }
    SpineSpawnProgressEvent { call_id: call_id.to_owned(), tasks: shown }
}

/// A branch has completed only where it ended with a memory that says something;
/// that memory is the result's, whole, and nothing else is said.
pub proof fn only_a_final_memory_completes(ordinal: usize, thread: Seq<char>, status: StatusModel)
    requires
        ordinal <= u32::MAX,
    ensures
        ({
            let r = status_result(ordinal, thread, status);
            &&& r.ordinal == ordinal
            &&& r.execution_ref == Some(thread)
            &&& r.outcome == SpawnOutcome::Completed <==> (status matches StatusModel::Completed(
                Some(memory),
            ) && !blank(memory))
            &&& r.outcome == SpawnOutcome::Completed ==> r.diagnostic is None && Some(r.memory_body)
                == status->Completed_0
            &&& r.outcome != SpawnOutcome::Completed ==> r.diagnostic == Some(r.memory_body)
            &&& r.outcome == SpawnOutcome::Aborted <==> status is Shutdown || status is PendingInit
                || status is Running || status is Interrupted
            &&& status matches StatusModel::Errored(error) ==> r.memory_body == "child errored: "@
                + error
        }),
{
}

/// A failure reports its diagnostic, and as its memory too.
pub proof fn a_failure_reports_its_diagnostic(
    ordinal: usize,
    outcome: SpawnOutcome,
    diagnostic: Seq<char>,
    execution_ref: Option<Seq<char>>,
)
    requires
        ordinal <= u32::MAX,
    ensures
        ({
            let r = failure(ordinal, outcome, diagnostic, execution_ref);
            &&& r.ordinal == ordinal
            &&& r.outcome == outcome
            &&& r.diagnostic == Some(diagnostic)
            &&& r.memory_body == diagnostic
            &&& r.execution_ref == execution_ref
        }),
        aborted(ordinal, execution_ref).outcome == SpawnOutcome::Aborted,
        aborted(ordinal, execution_ref).ordinal == ordinal,
        aborted(ordinal, execution_ref).execution_ref == execution_ref,
        lost(ordinal).outcome == SpawnOutcome::Errored,
        lost(ordinal).ordinal == ordinal,
        lost(ordinal).execution_ref is None,
{
}

/// A branch has stopped unless it waits to begin or runs; it lacks a final
/// message where it completed without one, or with a blank one.
pub proof fn when_a_branch_has_stopped(status: StatusModel)
    ensures
        !terminal(status) <==> status is PendingInit || status is Running,
        status is Completed || status is Errored || status is Shutdown || status is NotFound
            || status is Interrupted ==> terminal(status),
        missing_final_message(status) <==> status == StatusModel::Completed(None) || (
        status matches StatusModel::Completed(Some(memory)) && blank(memory)),
        missing_final_message(status) ==> terminal(status),
{
}

/// Progress shows a completed branch as completed, without its memory; a failed
/// one as errored, with its diagnostic; an aborted one as shut down; and one that
/// runs as it is.
pub proof fn progress_shows_how_a_branch_ended(
    ordinal: usize,
    thread: Seq<char>,
    status: StatusModel,
)
    ensures
        !terminal(status) ==> progress_status(ordinal, thread, status) == status,
        (status matches StatusModel::Completed(Some(memory)) && !blank(memory)) ==> progress_status(
            ordinal,
            thread,
            status,
        ) == StatusModel::Completed(None),
        status matches StatusModel::Errored(error) ==> progress_status(ordinal, thread, status)
            == StatusModel::Errored("child errored: "@ + error),
        status is Shutdown || status is Interrupted ==> progress_status(ordinal, thread, status)
            == StatusModel::Shutdown,
        missing_final_message(status) ==> progress_status(ordinal, thread, status) is Errored,
        status is NotFound ==> progress_status(ordinal, thread, status) is Errored,
{
}

/// A receipt has one result for each task, in order: the one that came in, or
/// that it was lost.
pub proof fn a_receipt_answers_every_task(results: Seq<Option<ResultModel>>, i: int)
    requires
        0 <= i < results.len(),
    ensures
        filled(results).len() == results.len(),
        results[i] matches Some(result) ==> filled(results)[i] == result,
        results[i] is None ==> filled(results)[i].outcome == SpawnOutcome::Errored && filled(
            results,
        )[i].execution_ref is None && (i <= u32::MAX ==> filled(results)[i].ordinal == i),
{
}

/// A batch that found no capacity answers every task with an error of its own,
/// and none of them has run.
pub proof fn a_batch_without_capacity_runs_nothing(
    tasks: Seq<SpawnTask>,
    max_threads: nat,
    i: int,
)
    requires
        0 <= i < tasks.len() <= u32::MAX,
    ensures
        ({
            let slots = capacity_slots(tasks, max_threads);
            &&& slots.len() == tasks.len()
            &&& slots[i] matches Some(result) && result.ordinal == i && result.outcome
                == SpawnOutcome::Errored && result.execution_ref is None && result.diagnostic
                == Some(
                "spine.spawn task "@ + decimal_text((i + 1) as nat) + "/"@ + decimal_text(
                    tasks.len(),
                ) + " (`"@ + tasks[i].summary@
                    + "`) was not started: aggregate admission requested "@ + decimal_text(
                    tasks.len(),
                )
                    + " child agents, but shared capacity was unavailable under the configured limit of "@
                    + decimal_text(max_threads)
                    + " concurrent child agents. Admission is all-or-nothing, so no child agents from this batch were created."@,
            )
        }),
{
}

/// Progress shows as many tasks as have a thread, a path and a status.
pub proof fn progress_shows_what_is_known(
    tasks: Seq<SpawnTask>,
    threads: Seq<String>,
    paths: Seq<String>,
    statuses: Seq<AgentStatus>,
)
    ensures
        ({
            let n = shown_count(tasks, threads, paths, statuses);
            &&& n <= tasks.len() && n <= threads.len() && n <= paths.len() && n <= statuses.len()
            &&& n == tasks.len() || n == threads.len() || n == paths.len() || n == statuses.len()
        }),
{
}

/// An entry that shows a task has its ordinal and summary, and the thread, path
/// and status of its branch.
pub proof fn an_entry_shows_its_task(
    entry: SpineSpawnTaskProgress,
    ordinal: int,
    task: SpawnTask,
    thread: String,
    path: String,
    status: AgentStatus,
)
    ensures
        shows_task(entry, ordinal, task, thread, path, status) <==> entry.ordinal == ordinal as u32
            && entry.summary@ == task.summary@ && entry.thread_id@ == thread@ && entry.agent_path@
            == path@ && entry.status@ == status@,
{
}

/// A task whose result was lost is reported as an error, under its ordinal.
pub proof fn a_lost_result_is_an_error(results: Seq<Option<ResultModel>>, i: int)
    requires
        0 <= i < results.len() <= u32::MAX,
        results[i] is None,
    ensures
        filled(results)[i].outcome is Errored,
        filled(results)[i].ordinal == i,
        filled(results)[i].execution_ref is None,
        filled(results)[i].memory_body == "coordinator lost the child terminal result"@,
        filled(results)[i].diagnostic == Some("coordinator lost the child terminal result"@),
{
}

} // verus!
