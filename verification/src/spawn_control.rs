//! Spawn transactions around their branches: admission, starting, waiting for a
//! final status, correcting early messages, and the abort barrier.

use crate::fragments::SpawnOutcome;
use crate::spawn::{
    capacity_rejection_receipt, error_result, finish_receipt, is_missing_final_message,
    is_spawn_terminal, AgentStatus, SpawnReceipt, SpawnTask,
};
use crate::spawn_tasks::{transaction_task_name, StartPhase};
use crate::text::{decimal, same_text};
use vstd::hash_set::StringHashSet;
use vstd::prelude::*;

verus! {

use crate::shapes::text_view;
use crate::spawn::{
    capacity_slots, failure, filled, missing_final_message, result_models, slot_models, slot_view,
    terminal, ResultModel, StatusModel,
};
use crate::spawn_tasks::{task_name, LiveBranch};
use crate::text::decimal_text;

/// Refuses a transaction that may not enter, or that was cancelled before it
/// created any child.
pub fn enter_transaction(entered: bool, cancelled: bool) -> (r: Result<(), String>)
    ensures
        match r {
            Ok(()) => entered && !cancelled,
            Err(message) => if !entered {
                message@
                    == "spine.spawn cannot start while another transaction is active or aborting"@
            } else {
                cancelled && message@ == "spine.spawn was cancelled before child creation"@
            },
        },
{
    if !entered {
        return Err(
            "spine.spawn cannot start while another transaction is active or aborting".to_owned(),
        );
    }
    if cancelled {
        return Err("spine.spawn was cancelled before child creation".to_owned());
    }
    Ok(())
}

/// The names of a transaction's children, in task order.
pub fn child_names(call_id: &str, count: usize) -> (r: Vec<String>)
    ensures
        r@.len() == count,
        forall|o: int| 0 <= o < count ==> (#[trigger] r@[o])@ == task_name(call_id@, o as nat),
{
    let mut names: Vec<String> = Vec::new();
    let mut o: usize = 0;
    while o < count
        invariant
            o <= count,
            names@.len() == o,
            forall|k: int| 0 <= k < o ==> (#[trigger] names@[k])@ == task_name(call_id@, k as nat),
        decreases count - o,
    {
        names.push(transaction_task_name(call_id, o));
        o = o + 1;
    }
    names
}

/// What is wrong with the source of a child.
pub open spec fn source_error(source: Result<Option<String>, String>) -> Option<Seq<char>> {
    match source {
        Err(error) => Some(error@),
        Ok(None) => Some("spine.spawn child is missing an agent path"@),
        Ok(Some(_)) => None,
    }
}

/// The paths of a transaction's children, or what is wrong with the first
/// source that has none.
pub fn collect_child_paths(sources: Vec<Result<Option<String>, String>>) -> (r: Result<
    Vec<String>,
    String,
>)
    ensures
        match r {
            Ok(paths) => paths@.len() == sources@.len() && forall|o: int|
                0 <= o < sources@.len() ==> #[trigger] sources@[o] == Ok::<Option<String>, String>(
                    Some(paths@[o]),
                ),
            Err(message) => exists|o: int|
                0 <= o < sources@.len() && source_error(#[trigger] sources@[o]) == Some(message@)
                    && forall|k: int|
                    0 <= k < o ==> source_error(#[trigger] sources@[k]) is None,
        },
{
    let mut paths: Vec<String> = Vec::new();
    let mut o: usize = 0;
    while o < sources.len()
        invariant
            o <= sources@.len(),
            paths@.len() == o,
            forall|k: int|
                0 <= k < o ==> #[trigger] sources@[k] == Ok::<Option<String>, String>(
                    Some(paths@[k]),
                ),
        decreases sources@.len() - o,
    {
        match &sources[o] {
            Err(error) => {
                assert(source_error(sources@[o as int]) == Some(error@));
                return Err(error.clone());
            },
            Ok(None) => {
                let message = "spine.spawn child is missing an agent path".to_owned();
                assert(source_error(sources@[o as int]) == Some(message@));
                return Err(message);
            },
            Ok(Some(path)) => {
                paths.push(path.clone());
            },
        }
        o = o + 1;
    }
    Ok(paths)
}

/// Why a batch was not admitted.
pub enum AdmissionError {
    AgentLimitReached { max_threads: usize },
    Other(String),
}

/// What follows from asking for admission.
pub enum Admission {
    /// The children may start.
    Start,
    /// The request is answered without any child.
    Reject(SpawnReceipt),
    Fail(String),
}

/// Decides on the outcome of asking for admission: how many children were
/// prepared, or why none was. `cancelled` says whether the transaction has
/// been cancelled since.
pub fn admit_children(
    schema: &str,
    tasks: &Vec<SpawnTask>,
    prepared: Result<usize, AdmissionError>,
    cancelled: bool,
) -> (r: Admission)
    ensures
        match prepared {
            Err(AdmissionError::AgentLimitReached { max_threads }) => r matches Admission::Reject(
                receipt,
            ) && receipt.schema@ == schema@ && result_models(receipt.results@) == filled(
                capacity_slots(tasks@, max_threads as nat),
            ),
            Err(AdmissionError::Other(error)) => r matches Admission::Fail(message) && message@
                == "spine.spawn admission failed: "@ + error@,
            Ok(count) => if count != tasks@.len() {
                r matches Admission::Fail(message) && message@ == "spine.spawn admission prepared "@
                    + decimal_text(count as nat) + " of "@ + decimal_text(tasks@.len())
                    + " children"@
            } else if cancelled {
                r matches Admission::Fail(message) && message@
                    == "spine.spawn was cancelled before child creation"@
            } else {
                r is Start
            },
        },
{
    match prepared {
        Err(AdmissionError::AgentLimitReached { max_threads }) => Admission::Reject(
            capacity_rejection_receipt(schema, tasks, max_threads),
        ),
        Err(AdmissionError::Other(error)) => {
            let mut message = String::from_str("spine.spawn admission failed: ");
            message.append(error.as_str());
            Admission::Fail(message)
        },
        Ok(count) => {
            if count != tasks.len() {
                let mut message = String::from_str("spine.spawn admission prepared ");
                message.append(decimal(count as u64).as_str());
                message.append(" of ");
                message.append(decimal(tasks.len() as u64).as_str());
                message.append(" children");
                return Admission::Fail(message);
            }
            if cancelled {
                return Admission::Fail("spine.spawn was cancelled before child creation".to_owned());
            }
            Admission::Start
        },
    }
}

/// The result slots after a failed start, with the first `k` running branches
/// aborted.
pub open spec fn aborted_slots(
    results: Seq<Option<ResultModel>>,
    live: Seq<LiveBranch>,
    k: int,
) -> Seq<Option<ResultModel>>
    decreases k,
{
    if k <= 0 {
        results
    } else {
        aborted_slots(results, live, k - 1).update(
            live[k - 1].ordinal as int,
            Some(
                failure(
                    live[k - 1].ordinal,
                    SpawnOutcome::Aborted,
                    "child aborted because another transaction child failed to start"@,
                    Some(live[k - 1].thread_id@),
                ),
            ),
        )
    }
}

/// Answers a batch some of whose children failed to start, once those that
/// started are torn down (or that failed with an error).
pub fn abort_started_children(schema: &str, phase: StartPhase, teardown: Option<String>) -> (r:
    Result<SpawnReceipt, String>)
    requires
        forall|k: int|
            0 <= k < phase.live@.len() ==> (#[trigger] phase.live@[k]).ordinal
                < phase.results@.len(),
    ensures
        match teardown {
            Some(error) => r == Err::<SpawnReceipt, String>(error),
            None => r matches Ok(receipt) && receipt.schema@ == schema@ && result_models(
                receipt.results@,
            ) == filled(
                aborted_slots(
                    slot_models(phase.results@),
                    phase.live@,
                    phase.live@.len() as int,
                ),
            ),
        },
{
    if let Some(error) = teardown {
        return Err(error);
    }
    let live = phase.live;
    let mut results = phase.results;
    let ghost before = slot_models(results@);
    let mut k: usize = 0;
    while k < live.len()
        invariant
            k <= live@.len(),
            results@.len() == before.len(),
            forall|j: int| 0 <= j < live@.len() ==> (#[trigger] live@[j]).ordinal < before.len(),
            slot_models(results@) == aborted_slots(before, live@, k as int),
        decreases live@.len() - k,
    {
        let ordinal = live[k].ordinal;
        let result = Some(
            error_result(
                ordinal,
                SpawnOutcome::Aborted,
                "child aborted because another transaction child failed to start".to_owned(),
                Some(live[k].thread_id.clone()),
            ),
        );
        let ghost earlier = results@;
        results.set(ordinal, result);
        assert(slot_models(results@) =~= slot_models(earlier).update(
            ordinal as int,
            slot_view(result),
        ));
        k = k + 1;
    }
    Ok(finish_receipt(schema, results))
}

/// The message of a teardown that failed.
pub fn teardown_error(error: &str) -> (r: String)
    ensures
        r@ == "spine.spawn child teardown failed: "@ + error@,
{
    let mut message = String::from_str("spine.spawn child teardown failed: ");
    message.append(error);
    message
}

/// What a branch's watcher does next.
#[derive(Debug, PartialEq, Eq)]
pub enum WaitAction {
    /// Read the current status and report it.
    ReadStatus,
    /// Wait until the status changes, or cannot change any more.
    AwaitChange,
    /// Ask the branch once for its missing final memory.
    RequestFinalMemory,
    /// Look the status up one last time; that is the final one.
    LookUpStatus,
    /// The final status.
    Done(AgentStatus),
}

/// Watches one branch until it has a final status. A branch that stops without
/// a final memory is reminded once.
#[derive(Debug, PartialEq, Eq)]
pub struct TerminalWait {
    reminded: bool,
}

impl TerminalWait {
    /// Whether the branch was reminded.
    pub closed spec fn was_reminded(&self) -> bool {
        self.reminded
    }

    /// Begins to watch a branch that was started. `subscribed` says whether its
    /// status can be followed.
    pub fn started(subscribed: bool) -> (r: (Self, WaitAction))
        ensures
            !r.0.was_reminded(),
            r.1 == if subscribed {
                WaitAction::ReadStatus
            } else {
                WaitAction::LookUpStatus
            },
    {
        (
            TerminalWait { reminded: false },
            if subscribed {
                WaitAction::ReadStatus
            } else {
                WaitAction::LookUpStatus
            },
        )
    }

    /// Begins to watch a branch that was resumed: the status that it failed in
    /// does not count.
    pub fn resumed() -> (r: (Self, WaitAction))
        ensures
            !r.0.was_reminded(),
            r.1 == WaitAction::AwaitChange,
    {
        (TerminalWait { reminded: false }, WaitAction::AwaitChange)
    }

    /// The branch is in the given status.
    pub fn on_status(&mut self, status: AgentStatus) -> (r: WaitAction)
        ensures
            if !terminal(status@) {
                r == WaitAction::AwaitChange && final(self).was_reminded() == old(
                    self,
                ).was_reminded()
            } else if missing_final_message(status@) && !old(self).was_reminded() {
                r == WaitAction::RequestFinalMemory && final(self).was_reminded()
            } else {
                r == WaitAction::Done(status) && final(self).was_reminded() == old(
                    self,
                ).was_reminded()
            },
    {
        if !is_spawn_terminal(&status) {
            return WaitAction::AwaitChange;
        }
        if is_missing_final_message(&status) && !self.reminded {
            self.reminded = true;
            return WaitAction::RequestFinalMemory;
        }
        WaitAction::Done(status)
    }

    /// The branch was reminded, or that failed with an error.
    pub fn on_reminded(&self, error: Option<String>) -> (r: WaitAction)
        ensures
            match error {
                Some(error) => r matches WaitAction::Done(status) && status@
                    == StatusModel::Errored("failed to request missing final memory: "@ + error@),
                None => r == WaitAction::AwaitChange,
            },
    {
        match error {
            Some(error) => {
                let mut message = String::from_str("failed to request missing final memory: ");
                message.append(error.as_str());
                WaitAction::Done(AgentStatus::Errored(message))
            },
            None => WaitAction::AwaitChange,
        }
    }

    /// The wait for a change ended; `closed` says that no change can come.
    pub fn on_change(&self, closed: bool) -> (r: WaitAction)
        ensures
            r == if closed {
                WaitAction::LookUpStatus
            } else {
                WaitAction::ReadStatus
            },
    {
        if closed {
            WaitAction::LookUpStatus
        } else {
            WaitAction::ReadStatus
        }
    }
}

/// The status by which a branch is judged: the one that the watcher ended with,
/// unless the branch could be seen idle, in which case the one it is in then.
pub fn judged_status(watched: AgentStatus, idle: Option<AgentStatus>) -> (r: AgentStatus)
    ensures
        r == (match idle {
            Some(status) => status,
            None => watched,
        }),
{
    match idle {
        Some(status) => status,
        None => watched,
    }
}

/// A message that a branch sent before it was done.
pub struct EarlyMessage {
    pub id: Option<String>,
    pub author: String,
    /// The author's thread, as the agent registry knows it.
    pub registered: Option<String>,
}

/// A correction to be sent to a branch.
#[derive(Debug, PartialEq, Eq)]
pub struct Correction {
    pub thread_id: String,
    pub recipient: String,
}

/// The thread of the child at a path.
pub open spec fn thread_at(children: Seq<LiveBranch>, path: Seq<char>) -> Option<Seq<char>>
    decreases children.len(),
{
    if children.len() == 0 {
        None
    } else if children.last().path@ == path {
        Some(children.last().thread_id@)
    } else {
        thread_at(children.drop_last(), path)
    }
}

/// The thread that a correction to a message goes to.
pub open spec fn correction_thread(children: Seq<LiveBranch>, message: EarlyMessage) -> Option<
    Seq<char>,
> {
    match thread_at(children, message.author@) {
        Some(thread) => Some(thread),
        None => text_view(message.registered),
    }
}

/// The corrections for a run of messages, as thread and recipient, and the
/// messages corrected since the transaction began. A message with an identity
/// is corrected at most once.
pub open spec fn corrections(
    children: Seq<LiveBranch>,
    messages: Seq<EarlyMessage>,
    seen: Set<Seq<char>>,
) -> (Seq<(Seq<char>, Seq<char>)>, Set<Seq<char>>)
    decreases messages.len(),
{
    if messages.len() == 0 {
        (Seq::empty(), seen)
    } else {
        let before = corrections(children, messages.drop_last(), seen);
        let message = messages.last();
        let repeated = message.id matches Some(id) && before.1.contains(id@);
        let known = match message.id {
            Some(id) => before.1.insert(id@),
            None => before.1,
        };
        if repeated {
            (before.0, known)
        } else {
            match correction_thread(children, message) {
                Some(thread) => (before.0.push((thread, message.author@)), known),
                None => (before.0, known),
            }
        }
    }
}

/// The corrections as pairs of texts.
pub open spec fn correction_views(sent: Seq<Correction>) -> Seq<(Seq<char>, Seq<char>)> {
    sent.map_values(|c: Correction| (c.thread_id@, c.recipient@))
}

fn find_thread(children: &Vec<LiveBranch>, path: &str) -> (r: Option<String>)
    ensures
        text_view(r) == thread_at(children@, path@),
{
    let mut k: usize = children.len();
    assert(children@.take(k as int) =~= children@);
    while k > 0
        invariant
            k <= children@.len(),
            thread_at(children@, path@) == thread_at(children@.take(k as int), path@),
        decreases k,
    {
        proof {
            let upto = children@.take(k as int);
            assert(upto.last() == children@[k - 1]);
            assert(upto.drop_last() =~= children@.take(k - 1));
        }
        if same_text(children[k - 1].path.as_str(), path) {
            return Some(children[k - 1].thread_id.clone());
        }
        k = k - 1;
    }
    None
}

/// The corrections that a run of early messages calls for.
pub fn correct_intermediate_messages(
    children: &Vec<LiveBranch>,
    messages: &Vec<EarlyMessage>,
    corrected_ids: &mut StringHashSet,
) -> (r: Vec<Correction>)
    ensures
        (correction_views(r@), final(corrected_ids)@) == corrections(
            children@,
            messages@,
            old(corrected_ids)@,
        ),
{
    let ghost seen = corrected_ids@;
    let mut sent: Vec<Correction> = Vec::new();
    let mut i: usize = 0;
    proof {
        assert(messages@.take(0) =~= Seq::empty());
        assert(correction_views(sent@) =~= Seq::empty());
    }
    while i < messages.len()
        invariant
            i <= messages@.len(),
            (correction_views(sent@), corrected_ids@) == corrections(
                children@,
                messages@.take(i as int),
                seen,
            ),
        decreases messages@.len() - i,
    {
        let message = &messages[i];
        proof {
            let upto = messages@.take(i + 1);
            assert(upto.drop_last() =~= messages@.take(i as int));
            assert(upto.last() == messages@[i as int]);
        }
        let repeated = match &message.id {
            Some(id) => {
                let known = corrected_ids.contains(id.as_str());
                corrected_ids.insert(id.clone());
                known
            },
            None => false,
        };
        if !repeated {
            let thread = match find_thread(children, message.author.as_str()) {
                Some(thread) => Some(thread),
                None => match &message.registered {
                    Some(thread) => Some(thread.clone()),
                    None => None,
                },
            };
            if let Some(thread_id) = thread {
                let ghost before = correction_views(sent@);
                sent.push(Correction { thread_id, recipient: message.author.clone() });
                assert(correction_views(sent@) =~= before.push((thread_id@, message.author@)));
            }
        }
        i = i + 1;
    }
    assert(messages@.take(i as int) =~= messages@);
    sent
}

/// The transaction that is active, by the handles of what cancels it.
#[derive(Clone, Copy, Debug, PartialEq, Eq, Structural)]
pub struct ActiveSpawnTransaction {
    pub cancellation: u64,
    pub mailbox_cancellation: Option<u64>,
}

/// Which transaction is active, and how many aborts stand in the way of the
/// next one.
#[derive(Clone, Copy, Debug, PartialEq, Eq, Structural)]
pub struct SpawnLifecycle {
    pub active: Option<ActiveSpawnTransaction>,
    pub abort_barriers: usize,
}

/// The lifecycle in which nothing has happened.
pub open spec fn idle_lifecycle() -> SpawnLifecycle {
    SpawnLifecycle { active: None, abort_barriers: 0 }
}

impl Default for SpawnLifecycle {
    fn default() -> (r: Self)
        ensures
            r == idle_lifecycle(),
    {
        SpawnLifecycle { active: None, abort_barriers: 0 }
    }
}

/// Whether a transaction may enter.
pub open spec fn admits(l: SpawnLifecycle) -> bool {
    l.abort_barriers == 0 && l.active is None
}

/// The lifecycle with a transaction entered.
pub open spec fn entered(l: SpawnLifecycle, cancellation: u64) -> SpawnLifecycle {
    SpawnLifecycle {
        active: Some(ActiveSpawnTransaction { cancellation, mailbox_cancellation: None }),
        abort_barriers: l.abort_barriers,
    }
}

/// The lifecycle with one more abort barrier.
pub open spec fn abort_begun(l: SpawnLifecycle) -> SpawnLifecycle {
    SpawnLifecycle { active: l.active, abort_barriers: (l.abort_barriers + 1) as usize }
}

/// The lifecycle with one abort barrier less.
pub open spec fn abort_ended(l: SpawnLifecycle) -> SpawnLifecycle {
    SpawnLifecycle {
        active: l.active,
        abort_barriers: if l.abort_barriers > 0 {
            (l.abort_barriers - 1) as usize
        } else {
            0
        },
    }
}

/// The lifecycle with no active transaction.
pub open spec fn left(l: SpawnLifecycle) -> SpawnLifecycle {
    SpawnLifecycle { active: None, abort_barriers: l.abort_barriers }
}

/// A transaction keeps every other one out until it leaves.
pub proof fn one_transaction_at_a_time(l: SpawnLifecycle, cancellation: u64)
    requires
        admits(l),
    ensures
        !admits(entered(l, cancellation)),
        admits(left(entered(l, cancellation))),
{
}

/// While an abort barrier stands no transaction enters, though the aborted one
/// has left; lowering the barrier restores what was before.
pub proof fn an_abort_keeps_transactions_out(l: SpawnLifecycle)
    requires
        l.abort_barriers < usize::MAX,
    ensures
        !admits(abort_begun(l)),
        !admits(left(abort_begun(l))),
        abort_ended(abort_begun(l)) == l,
        abort_ended(left(abort_begun(l))) == left(l),
{
}

impl SpawnLifecycle {
    /// Admits a transaction, unless one is active or being aborted.
    pub fn try_enter(&mut self, cancellation: u64) -> (r: bool)
        ensures
            r == admits(*old(self)),
            *final(self) == if r {
                entered(*old(self), cancellation)
            } else {
                *old(self)
            },
    {
        if self.abort_barriers > 0 || self.active.is_some() {
            return false;
        }
        self.active = Some(ActiveSpawnTransaction { cancellation, mailbox_cancellation: None });
        true
    }

    /// Raises an abort barrier. The active transaction, if there is one, is the
    /// one to be cancelled.
    pub fn begin_abort(&mut self) -> (r: Option<ActiveSpawnTransaction>)
        requires
            old(self).abort_barriers < usize::MAX,
        ensures
            r == old(self).active,
            *final(self) == abort_begun(*old(self)),
    {
        self.abort_barriers = self.abort_barriers + 1;
        self.active
    }

    /// Notes what cancels the active transaction's mailbox. The answer is
    /// whether it has to be cancelled at once.
    pub fn install_mailbox_cancellation(&mut self, cancellation: u64) -> (r: bool)
        ensures
            r == (old(self).abort_barriers > 0),
            *final(self) == (SpawnLifecycle {
                active: match old(self).active {
                    Some(active) => Some(
                        ActiveSpawnTransaction {
                            cancellation: active.cancellation,
                            mailbox_cancellation: Some(cancellation),
                        },
                    ),
                    None => None,
                },
                abort_barriers: old(self).abort_barriers,
            }),
    {
        if let Some(active) = self.active {
            self.active = Some(
                ActiveSpawnTransaction {
                    cancellation: active.cancellation,
                    mailbox_cancellation: Some(cancellation),
                },
            );
        }
        self.abort_barriers > 0
    }

    /// Whether no transaction is active.
    pub fn is_quiescent(&self) -> (r: bool)
        ensures
            r == (self.active is None),
    {
        self.active.is_none()
    }

    /// The active transaction is over.
    pub fn leave(&mut self)
        ensures
            *final(self) == left(*old(self)),
    {
        self.active = None;
    }

    /// Lowers an abort barrier.
    pub fn end_abort(&mut self)
        ensures
            *final(self) == abort_ended(*old(self)),
    {
        self.abort_barriers = self.abort_barriers.saturating_sub(1);
    }
}

/// A child may be used exactly where its source names a path.
pub proof fn a_child_needs_a_path(source: Result<Option<String>, String>)
    ensures
        source_error(source) is None <==> source matches Ok(Some(_)),
        source matches Err(error) ==> source_error(source) == Some(error@),
        source == Ok::<Option<String>, String>(None) ==> source_error(source) == Some(
            "spine.spawn child is missing an agent path"@,
        ),
{
}

/// A running branch that is torn down because a sibling failed to start is
/// reported as aborted, under its thread; no other slot changes.
pub proof fn running_siblings_are_aborted(
    results: Seq<Option<ResultModel>>,
    live: Seq<LiveBranch>,
    k: int,
)
    requires
        0 <= k <= live.len(),
        forall|j: int| 0 <= j < live.len() ==> (#[trigger] live[j]).ordinal < results.len(),
    ensures
        aborted_slots(results, live, k).len() == results.len(),
        forall|o: int|
            0 <= o < results.len() && (forall|j: int|
                0 <= j < k ==> (#[trigger] live[j]).ordinal != o) ==> #[trigger] aborted_slots(
                results,
                live,
                k,
            )[o] == results[o],
        forall|j: int|
            0 <= j < k && (forall|i: int|
                j < i < k ==> (#[trigger] live[i]).ordinal != live[j].ordinal) ==> {
                let slot = aborted_slots(results, live, k)[(#[trigger] live[j]).ordinal as int];
                slot matches Some(result) && result.ordinal == live[j].ordinal as u32
                    && result.outcome is Aborted && result.execution_ref == Some(live[j].thread_id@)
                    && result.memory_body
                    == "child aborted because another transaction child failed to start"@
                    && result.diagnostic == Some(result.memory_body)
            },
    decreases k,
{
    if k > 0 {
        running_siblings_are_aborted(results, live, k - 1);
        let last = live[k - 1];
        let before = aborted_slots(results, live, k - 1);
        let now = aborted_slots(results, live, k);
        assert forall|o: int|
            0 <= o < results.len() && (forall|j: int|
                0 <= j < k ==> (#[trigger] live[j]).ordinal != o) implies #[trigger] now[o]
            == results[o] by {
            assert(last.ordinal != o);
            assert(before[o] == results[o]);
        }
        assert forall|j: int|
            0 <= j < k - 1 && (forall|i: int|
                j < i < k ==> (#[trigger] live[i]).ordinal != live[j].ordinal) implies now[(
        #[trigger] live[j]).ordinal as int] == before[live[j].ordinal as int] by {
            assert(last.ordinal != live[j].ordinal);
        }
    }
}

/// A message from the path of a running child is corrected in that child's
/// thread, whatever the registry says.
pub proof fn a_child_is_corrected_in_its_thread(
    children: Seq<LiveBranch>,
    message: EarlyMessage,
    k: int,
)
    requires
        0 <= k < children.len(),
        children[k].path@ == message.author@,
        forall|i: int, j: int|
            0 <= i < j < children.len() ==> (#[trigger] children[i]).path@ != (
            #[trigger] children[j]).path@,
    ensures
        correction_thread(children, message) == Some(children[k].thread_id@),
    decreases children.len(),
{
    let rest = children.drop_last();
    if k < children.len() - 1 {
        assert(rest[k] == children[k]);
        assert(children[k].path@ != children[children.len() - 1].path@);
        a_child_is_corrected_in_its_thread(rest, message, k);
    }
}

/// A message from anyone else is corrected in the thread that the registry
/// knows, if it knows one.
pub proof fn others_are_corrected_by_the_registry(children: Seq<LiveBranch>, message: EarlyMessage)
    requires
        forall|k: int| 0 <= k < children.len() ==> (#[trigger] children[k]).path@ != message.author@,
    ensures
        correction_thread(children, message) == (match message.registered {
            Some(thread) => Some(thread@),
            None => None,
        }),
    decreases children.len(),
{
    if children.len() > 0 {
        let rest = children.drop_last();
        assert(children[children.len() - 1].path@ != message.author@);
        assert forall|k: int| 0 <= k < rest.len() implies (#[trigger] rest[k]).path@
            != message.author@ by {
            assert(rest[k] == children[k]);
        }
        others_are_corrected_by_the_registry(rest, message);
    }
}

/// One more message: nothing is sent for one whose identity was seen, or whose
/// author has no thread; else a correction goes to that thread, after those for
/// the messages before it. Its identity is remembered either way.
pub proof fn messages_are_corrected_one_by_one(
    children: Seq<LiveBranch>,
    messages: Seq<EarlyMessage>,
    message: EarlyMessage,
    seen: Set<Seq<char>>,
)
    ensures
        ({
            let before = corrections(children, messages, seen);
            let now = corrections(children, messages.push(message), seen);
            &&& now.1 == match message.id {
                Some(id) => before.1.insert(id@),
                None => before.1,
            }
            &&& (message.id matches Some(id) && before.1.contains(id@)) ==> now.0 == before.0
            &&& correction_thread(children, message) is None ==> now.0 == before.0
            &&& !(message.id matches Some(id) && before.1.contains(id@)) ==> (correction_thread(
                children,
                message,
            ) matches Some(thread) ==> now.0 == before.0.push((thread, message.author@)))
        }),
        corrections(children, Seq::empty(), seen) == (Seq::<(Seq<char>, Seq<char>)>::empty(), seen),
{
    assert(messages.push(message).drop_last() =~= messages);
}

/// A transaction may enter exactly where none is active and no abort stands in
/// the way; entering, leaving and the two ends of an abort each change one thing.
pub proof fn a_lifecycle_changes_one_thing_at_a_time(l: SpawnLifecycle, cancellation: u64)
    ensures
        admits(idle_lifecycle()),
        admits(l) <==> l.active is None && l.abort_barriers == 0,
        entered(l, cancellation).abort_barriers == l.abort_barriers,
        entered(l, cancellation).active matches Some(active) && active.cancellation == cancellation
            && active.mailbox_cancellation is None,
        left(l).active is None && left(l).abort_barriers == l.abort_barriers,
        l.abort_barriers < usize::MAX ==> abort_begun(l).abort_barriers == l.abort_barriers + 1,
        abort_begun(l).active == l.active,
        l.abort_barriers > 0 ==> abort_ended(l).abort_barriers == l.abort_barriers - 1,
        l.abort_barriers == 0 ==> abort_ended(l).abort_barriers == 0,
        abort_ended(l).active == l.active,
{
}

} // verus!
