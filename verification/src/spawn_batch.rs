//! Spawn batches that are collected in waves: branches finish one by one, and
//! each collection takes the results that have come in since the last one.

use crate::spawn::{
    aborted_result, is_spawn_terminal, result_from_status, result_status, spawn_progress_event,
    AgentStatus, SpawnReceipt, SpawnResult, SpawnTask, SpineSpawnProgressEvent,
};
use crate::spawn_tasks::LiveBranch;
use vstd::prelude::*;

verus! {

use crate::shapes::text_view;
use crate::spawn::{
    aborted, shown_status, shows_task, status_result, terminal, ResultModel, StatusModel,
};

/// What a collection waits for.
#[derive(Clone, Copy, Debug, PartialEq, Eq, Structural)]
pub enum CollectWait {
    /// At least one result.
    Any,
    /// Every result.
    All,
}

/// A batch whose branches have not all been collected.
#[derive(Debug, PartialEq, Eq)]
pub struct LiveSpawnBatch {
    spawn_call_id: String,
    tasks: Vec<SpawnTask>,
    child_paths: Vec<String>,
    progress_thread_ids: Vec<String>,
    progress_statuses: Vec<AgentStatus>,
    /// By task: whether its branch is still running.
    remaining: Vec<bool>,
    /// By task: the thread of its branch, until that is torn down.
    remaining_threads: Vec<Option<String>>,
    buffer: Vec<(usize, SpawnResult)>,
    outstanding: usize,
}

/// The model of a [`LiveSpawnBatch`].
#[verifier::ext_equal]
pub ghost struct BatchModel {
    pub call_id: Seq<char>,
    pub tasks: Seq<SpawnTask>,
    pub paths: Seq<String>,
    pub thread_ids: Seq<String>,
    pub statuses: Seq<StatusModel>,
    pub remaining: Seq<bool>,
    pub threads: Seq<Option<Seq<char>>>,
    pub buffer: Seq<(usize, ResultModel)>,
    pub outstanding: nat,
}

pub open spec fn status_models(statuses: Seq<AgentStatus>) -> Seq<StatusModel> {
    statuses.map_values(|s: AgentStatus| s@)
}

pub open spec fn thread_models(threads: Seq<Option<String>>) -> Seq<Option<Seq<char>>> {
    threads.map_values(|t: Option<String>| text_view(t))
}

pub open spec fn buffered(buffer: Seq<(usize, SpawnResult)>) -> Seq<(usize, ResultModel)> {
    buffer.map_values(|entry: (usize, SpawnResult)| (entry.0, entry.1@))
}

impl View for LiveSpawnBatch {
    type V = BatchModel;

    closed spec fn view(&self) -> BatchModel {
        BatchModel {
            call_id: self.spawn_call_id@,
            tasks: self.tasks@,
            paths: self.child_paths@,
            thread_ids: self.progress_thread_ids@,
            statuses: status_models(self.progress_statuses@),
            remaining: self.remaining@,
            threads: thread_models(self.remaining_threads@),
            buffer: buffered(self.buffer@),
            outstanding: self.outstanding as nat,
        }
    }
}

/// A batch holds one entry per task.
pub open spec fn batch_inv(m: BatchModel) -> bool {
    &&& m.remaining.len() == m.tasks.len()
    &&& m.threads.len() == m.tasks.len()
    &&& m.paths.len() == m.tasks.len()
    &&& m.statuses.len() == m.tasks.len()
    &&& m.outstanding <= usize::MAX
}

/// Whether one of the running branches is the task's.
pub open spec fn runs(live: Seq<LiveBranch>, ordinal: int) -> bool {
    exists|k: int| 0 <= k < live.len() && (#[trigger] live[k]).ordinal == ordinal
}

/// The thread of a task's branch.
pub open spec fn thread_of(live: Seq<LiveBranch>, ordinal: int) -> Option<Seq<char>>
    decreases live.len(),
{
    if live.len() == 0 {
        None
    } else if live.last().ordinal == ordinal {
        Some(live.last().thread_id@)
    } else {
        thread_of(live.drop_last(), ordinal)
    }
}

/// The batch after a branch has ended and its status is shown.
pub open spec fn finished(m: BatchModel, ordinal: int, result: ResultModel) -> BatchModel {
    BatchModel {
        statuses: m.statuses.update(ordinal, shown_status(result)),
        threads: m.threads.update(ordinal, None),
        ..m
    }
}

/// The batch after the branch was torn down and its result is kept.
pub open spec fn settled(m: BatchModel, ordinal: int, result: ResultModel) -> BatchModel {
    BatchModel {
        buffer: m.buffer.push((ordinal as usize, result)),
        remaining: m.remaining.update(ordinal, false),
        outstanding: if m.outstanding > 0 {
            (m.outstanding - 1) as nat
        } else {
            0
        },
        ..m
    }
}

/// The summaries of the first `upto` tasks whose branches are still running.
pub open spec fn pending(m: BatchModel, upto: int) -> Seq<Seq<char>>
    decreases upto,
{
    if upto <= 0 {
        Seq::empty()
    } else if m.remaining[upto - 1] {
        pending(m, upto - 1).push(m.tasks[upto - 1].summary@)
    } else {
        pending(m, upto - 1)
    }
}

/// Whether no branch is running and nothing is outstanding.
pub open spec fn complete(m: BatchModel) -> bool {
    m.outstanding == 0 && forall|o: int| 0 <= o < m.remaining.len() ==> !(#[trigger] m.remaining[o])
}

impl LiveSpawnBatch {
    pub open spec fn wf(&self) -> bool {
        batch_inv(self@)
    }

    /// A batch over the branches that are running.
    pub fn new(
        spawn_call_id: String,
        tasks: Vec<SpawnTask>,
        child_paths: Vec<String>,
        live: &Vec<LiveBranch>,
        progress_thread_ids: Vec<String>,
        progress_statuses: Vec<AgentStatus>,
    ) -> (r: Self)
        requires
            child_paths@.len() == tasks@.len(),
            progress_statuses@.len() == tasks@.len(),
            forall|k: int| 0 <= k < live@.len() ==> (#[trigger] live@[k]).ordinal < tasks@.len(),
        ensures
            r.wf(),
            r@.call_id == spawn_call_id@,
            r@.tasks == tasks@,
            r@.paths == child_paths@,
            r@.thread_ids == progress_thread_ids@,
            r@.statuses == status_models(progress_statuses@),
            forall|o: int|
                0 <= o < tasks@.len() ==> #[trigger] r@.remaining[o] == runs(live@, o),
            forall|o: int|
                0 <= o < tasks@.len() ==> #[trigger] r@.threads[o] == thread_of(live@, o),
            r@.buffer.len() == 0,
            r@.outstanding == live@.len(),
    {
        let mut remaining: Vec<bool> = Vec::new();
        let mut threads: Vec<Option<String>> = Vec::new();
        let mut o: usize = 0;
        while o < tasks.len()
            invariant
                o <= tasks@.len(),
                remaining@.len() == o,
                threads@.len() == o,
                forall|k: int| 0 <= k < o ==> !(#[trigger] remaining@[k]),
                forall|k: int| 0 <= k < o ==> #[trigger] threads@[k] == None::<String>,
            decreases tasks@.len() - o,
        {
            remaining.push(false);
            threads.push(None);
            o = o + 1;
        }
        let mut k: usize = 0;
        while k < live.len()
            invariant
                k <= live@.len(),
                remaining@.len() == tasks@.len(),
                threads@.len() == tasks@.len(),
                forall|j: int|
                    0 <= j < live@.len() ==> (#[trigger] live@[j]).ordinal < tasks@.len(),
                forall|j: int|
                    0 <= j < tasks@.len() ==> #[trigger] remaining@[j] == runs(
                        live@.take(k as int),
                        j,
                    ),
                forall|j: int|
                    0 <= j < tasks@.len() ==> text_view(#[trigger] threads@[j]) == thread_of(
                        live@.take(k as int),
                        j,
                    ),
            decreases live@.len() - k,
        {
            let ghost before = live@.take(k as int);
            let ghost upto = live@.take(k + 1);
            proof {
                assert(upto.drop_last() =~= before);
                assert(upto.last() == live@[k as int]);
                assert forall|j: int| 0 <= j < tasks@.len() implies runs(upto, j) == (runs(
                    before,
                    j,
                ) || live@[k as int].ordinal == j) by {
                    if runs(before, j) {
                        let w = choose|w: int|
                            0 <= w < before.len() && (#[trigger] before[w]).ordinal == j;
                        assert(upto[w].ordinal == j);
                    }
                    if live@[k as int].ordinal == j {
                        assert(upto[k as int].ordinal == j);
                    }
                    if runs(upto, j) && live@[k as int].ordinal != j {
                        let w = choose|w: int|
                            0 <= w < upto.len() && (#[trigger] upto[w]).ordinal == j;
                        assert(before[w].ordinal == j);
                    }
                }
            }
            let ordinal = live[k].ordinal;
            remaining.set(ordinal, true);
            threads.set(ordinal, Some(live[k].thread_id.clone()));
            k = k + 1;
        }
        assert(live@.take(k as int) =~= live@);
        LiveSpawnBatch {
            spawn_call_id,
            tasks,
            child_paths,
            progress_thread_ids,
            progress_statuses,
            remaining,
            remaining_threads: threads,
            buffer: Vec::new(),
            outstanding: live.len(),
        }
    }

    /// What the batch shows of its progress.
    pub fn progress(&self) -> (r: SpineSpawnProgressEvent)
        requires
            self.wf(),
        ensures
            r.call_id@ == self@.call_id,
            r.tasks@.len() == if self@.tasks.len() <= self@.thread_ids.len() {
                self@.tasks.len()
            } else {
                self@.thread_ids.len()
            },
            forall|i: int|
                0 <= i < r.tasks@.len() ==> {
                    &&& (#[trigger] r.tasks@[i]).ordinal == i as u32
                    &&& r.tasks@[i].summary@ == self@.tasks[i].summary@
                    &&& r.tasks@[i].thread_id@ == self@.thread_ids[i]@
                    &&& r.tasks@[i].agent_path@ == self@.paths[i]@
                    &&& r.tasks@[i].status@ == self@.statuses[i]
                },
    {
        let event = spawn_progress_event(
            self.spawn_call_id.as_str(),
            &self.tasks,
            &self.progress_thread_ids,
            &self.child_paths,
            &self.progress_statuses,
        );
        proof {
            assert forall|i: int| 0 <= i < event.tasks@.len() implies {
                &&& (#[trigger] event.tasks@[i]).ordinal == i as u32
                &&& event.tasks@[i].summary@ == self@.tasks[i].summary@
                &&& event.tasks@[i].thread_id@ == self@.thread_ids[i]@
                &&& event.tasks@[i].agent_path@ == self@.paths[i]@
                &&& event.tasks@[i].status@ == self@.statuses[i]
            } by {
                assert(shows_task(
                    event.tasks@[i],
                    i,
                    self.tasks@[i],
                    self.progress_thread_ids@[i],
                    self.child_paths@[i],
                    self.progress_statuses@[i],
                ));
            }
        }
        event
    }

    /// A branch has ended. The answer names the thread and path to tear down,
    /// if the branch was not torn down before.
    pub fn child_finished(&mut self, ordinal: usize, result: &SpawnResult) -> (r: Option<
        (String, String),
    >)
        requires
            old(self).wf(),
            ordinal < old(self)@.tasks.len(),
        ensures
            final(self).wf(),
            final(self)@ == finished(old(self)@, ordinal as int, result@),
            match old(self)@.threads[ordinal as int] {
                Some(thread) => r matches Some(target) && target.0@ == thread && target.1@ == old(
                    self,
                )@.paths[ordinal as int]@,
                None => r is None,
            },
    {
        let ghost before = self@;
        let thread = match &self.remaining_threads[ordinal] {
            Some(thread) => Some(thread.clone()),
            None => None,
        };
        let status = result_status(result);
        let ghost statuses = self.progress_statuses@;
        let ghost threads = self.remaining_threads@;
        self.progress_statuses.set(ordinal, status);
        self.remaining_threads.set(ordinal, None);
        proof {
            assert(status_models(self.progress_statuses@) =~= before.statuses.update(
                ordinal as int,
                shown_status(result@),
            ));
            assert(thread_models(self.remaining_threads@) =~= before.threads.update(
                ordinal as int,
                None,
            ));
            assert(before.threads[ordinal as int] == text_view(threads[ordinal as int]));
        }
        match thread {
            Some(thread) => Some((thread, self.child_paths[ordinal].clone())),
            None => None,
        }
    }

    /// A branch that ended has been torn down; its result waits to be collected.
    pub fn child_settled(&mut self, ordinal: usize, result: SpawnResult)
        requires
            old(self).wf(),
            ordinal < old(self)@.tasks.len(),
        ensures
            final(self).wf(),
            final(self)@ == settled(old(self)@, ordinal as int, result@),
    {
        let ghost before = self@;
        self.buffer.push((ordinal, result));
        self.remaining.set(ordinal, false);
        self.outstanding = self.outstanding.saturating_sub(1);
        assert(buffered(self.buffer@) =~= before.buffer.push((ordinal, result@)));
    }

    /// The branches that an abort tears down, by thread and path. None of them
    /// is torn down again.
    pub fn abort(&mut self) -> (r: Vec<(String, String)>)
        requires
            old(self).wf(),
        ensures
            final(self).wf(),
            final(self)@ == (BatchModel {
                threads: Seq::new(old(self)@.tasks.len(), |o: int| None),
                ..old(self)@
            }),
            target_views(r@) == abort_targets(old(self)@, old(self)@.tasks.len() as int),
    {
        let ghost before = self@;
        let mut targets: Vec<(String, String)> = Vec::new();
        let mut threads: Vec<Option<String>> = Vec::new();
        let mut o: usize = 0;
        assert(target_views(targets@) =~= Seq::empty());
        while o < self.tasks.len()
            invariant
                o <= self.tasks@.len(),
                self@ == before,
                batch_inv(before),
                threads@.len() == o,
                forall|k: int| 0 <= k < o ==> #[trigger] threads@[k] == None::<String>,
                target_views(targets@) == abort_targets(before, o as int),
            decreases self.tasks@.len() - o,
        {
            assert(before.threads[o as int] == text_view(self.remaining_threads@[o as int]));
            if let Some(thread) = &self.remaining_threads[o] {
                let ghost earlier = target_views(targets@);
                targets.push((thread.clone(), self.child_paths[o].clone()));
                assert(target_views(targets@) =~= earlier.push(
                    (thread@, before.paths[o as int]@),
                ));
            }
            threads.push(None);
            o = o + 1;
        }
        self.remaining_threads = threads;
        assert(thread_models(self.remaining_threads@) =~= Seq::new(
            before.tasks.len(),
            |o: int| None::<Seq<char>>,
        ));
        targets
    }
}

/// The branches of the first `upto` tasks that were not torn down.
pub open spec fn abort_targets(m: BatchModel, upto: int) -> Seq<(Seq<char>, Seq<char>)>
    decreases upto,
{
    if upto <= 0 {
        Seq::empty()
    } else {
        match m.threads[upto - 1] {
            Some(thread) => abort_targets(m, upto - 1).push((thread, m.paths[upto - 1]@)),
            None => abort_targets(m, upto - 1),
        }
    }
}

pub open spec fn target_views(targets: Seq<(String, String)>) -> Seq<(Seq<char>, Seq<char>)> {
    targets.map_values(|t: (String, String)| (t.0@, t.1@))
}

/// The result of a branch that was watched to its end.
pub fn watched_result(
    ordinal: usize,
    thread_id: &str,
    status: &AgentStatus,
    batch_cancelled: bool,
) -> (r: SpawnResult)
    ensures
        r@ == if !terminal(status@) && batch_cancelled {
            aborted(ordinal, Some(thread_id@))
        } else {
            status_result(ordinal, thread_id@, status@)
        },
{
    if !is_spawn_terminal(status) && batch_cancelled {
        return aborted_result(ordinal, &Some(thread_id.to_owned()));
    }
    result_from_status(ordinal, thread_id, status)
}

/// The results that one collection took.
#[derive(Debug, PartialEq, Eq)]
pub struct SpawnWave {
    pub spawn_call_id: String,
    pub tasks: Vec<SpawnTask>,
    pub receipt: SpawnReceipt,
    pub pending_summaries: Vec<String>,
    pub complete: bool,
}

/// What a collection does next.
#[derive(Debug, PartialEq, Eq)]
pub enum CollectStep {
    /// Abort the branches, then report the cancellation.
    Abort,
    /// Wait for the next branch.
    Wait,
    /// Build the receipt of these results, by task.
    Harvest(Vec<(usize, SpawnResult)>),
    Fail(String),
}

/// Why a waiting collection stopped.
#[derive(Clone, Copy, Debug, PartialEq, Eq, Structural)]
pub enum CollectCancellation {
    Batch,
    Tool { abort: bool },
}

/// The batch that is waiting to be collected, if there is one.
#[derive(Debug, PartialEq, Eq)]
pub struct SpawnBatchRegistry {
    pub live: Option<LiveSpawnBatch>,
}

pub open spec fn batch_view(live: Option<LiveSpawnBatch>) -> Option<BatchModel> {
    match live {
        Some(batch) => Some(batch@),
        None => None,
    }
}

impl View for SpawnBatchRegistry {
    type V = Option<BatchModel>;

    open spec fn view(&self) -> Option<BatchModel> {
        batch_view(self.live)
    }
}

impl Default for SpawnBatchRegistry {
    fn default() -> (r: Self)
        ensures
            r@ is None,
    {
        SpawnBatchRegistry { live: None }
    }
}

/// Whether a batch's results can be collected.
pub open spec fn harvestable(m: BatchModel, wait: CollectWait) -> bool {
    m.buffer.len() > 0 && !(wait == CollectWait::All && m.outstanding > 0)
}

impl SpawnBatchRegistry {
    pub open spec fn wf(&self) -> bool {
        self@ matches Some(m) ==> batch_inv(m)
    }

    pub fn is_pending(&self) -> (r: bool)
        ensures
            r == (self@ is Some),
    {
        self.live.is_some()
    }

    /// Refuses a structural control while a batch is pending.
    pub fn reject_structural_control(&self) -> (r: Result<(), String>)
        ensures
            match r {
                Ok(()) => self@ is None,
                Err(message) => self@ is Some && message@
                    == "spine.open, spine.close, spine.next, and spine.spawn are unavailable while spawned branches are still running; call spine.collect first"@,
            },
    {
        if self.is_pending() {
            return Err(
                "spine.open, spine.close, spine.next, and spine.spawn are unavailable while spawned branches are still running; call spine.collect first".to_owned(),
            );
        }
        Ok(())
    }

    /// Makes a batch the pending one, unless there is one.
    pub fn arm(&mut self, batch: LiveSpawnBatch) -> (r: Result<(), String>)
        requires
            old(self).wf(),
            batch.wf(),
        ensures
            final(self).wf(),
            match r {
                Ok(()) => old(self)@ is None && final(self)@ == Some(batch@),
                Err(message) => old(self)@ is Some && final(self)@ == old(self)@ && message@
                    == "spine.spawn cannot start while another transaction is active"@,
            },
    {
        if self.live.is_some() {
            return Err("spine.spawn cannot start while another transaction is active".to_owned());
        }
        self.live = Some(batch);
        Ok(())
    }

    /// Whether the pending batch can be collected now.
    pub fn collect_step(&self, wait: CollectWait, batch_cancelled: bool) -> (r: CollectStep)
        requires
            self.wf(),
        ensures
            match self@ {
                None => r matches CollectStep::Fail(message) && message@
                    == "no pending spine.spawn branches; spine.collect is only valid while a spawn batch is still running"@,
                Some(m) => if batch_cancelled {
                    r == CollectStep::Abort
                } else if m.buffer.len() == 0 && m.outstanding == 0 {
                    r matches CollectStep::Fail(message) && message@
                        == "spine.spawn batch finished without buffered results"@
                } else if harvestable(m, wait) {
                    r matches CollectStep::Harvest(completed) && buffered(completed@) == m.buffer
                } else {
                    r == CollectStep::Wait
                },
            },
    {
        match &self.live {
            None => CollectStep::Fail(
                "no pending spine.spawn branches; spine.collect is only valid while a spawn batch is still running".to_owned(),
            ),
            Some(batch) => {
                if batch_cancelled {
                    return CollectStep::Abort;
                }
                if batch.buffer.len() == 0 {
                    if batch.outstanding == 0 {
                        return CollectStep::Fail(
                            "spine.spawn batch finished without buffered results".to_owned(),
                        );
                    }
                    return CollectStep::Wait;
                }
                if wait == CollectWait::All && batch.outstanding > 0 {
                    return CollectStep::Wait;
                }
                let mut completed: Vec<(usize, SpawnResult)> = Vec::new();
                let mut i: usize = 0;
                while i < batch.buffer.len()
                    invariant
                        i <= batch.buffer@.len(),
                        completed@ =~= batch.buffer@.take(i as int),
                    decreases batch.buffer@.len() - i,
                {
                    let entry = &batch.buffer[i];
                    completed.push((entry.0, entry.1.copy()));
                    i = i + 1;
                }
                assert(completed@ =~= batch.buffer@);
                CollectStep::Harvest(completed)
            },
        }
    }

    /// Takes the buffered results, for which the given receipt was built. Where
    /// that failed, they stay.
    pub fn harvest(&mut self, wave: Result<(Vec<SpawnTask>, SpawnReceipt), String>) -> (r: Result<
        SpawnWave,
        String,
    >)
        requires
            old(self).wf(),
            old(self)@ is Some,
        ensures
            final(self).wf(),
            match wave {
                Err(error) => r == Err::<SpawnWave, String>(error) && final(self)@ == old(self)@,
                Ok((tasks, receipt)) => {
                    let m = old(self)@->Some_0;
                    &&& r matches Ok(wave)
                    &&& wave.spawn_call_id@ == m.call_id
                    &&& wave.tasks == tasks
                    &&& wave.receipt == receipt
                    &&& summary_views(wave.pending_summaries@) == pending(m, m.tasks.len() as int)
                    &&& wave.complete == complete(m)
                    &&& final(self)@ == if complete(m) {
                        None
                    } else {
                        Some(BatchModel { buffer: Seq::empty(), ..m })
                    }
                },
            },
    {
        let (tasks, receipt) = match wave {
            Err(error) => {
                return Err(error);
            },
            Ok(parts) => parts,
        };
        let ghost m = self@->Some_0;
        let mut taken = None;
        std::mem::swap(&mut taken, &mut self.live);
        match taken {
            None => {
                assert(false);
                Err(String::new())
            },
            Some(batch) => {
                let mut batch = batch;
                let mut pending_summaries: Vec<String> = Vec::new();
                let mut running = false;
                let mut o: usize = 0;
                assert(summary_views(pending_summaries@) =~= Seq::empty());
                while o < batch.tasks.len()
                    invariant
                        o <= batch.tasks@.len(),
                        batch@ == m,
                        batch_inv(m),
                        running == exists|k: int| 0 <= k < o && #[trigger] m.remaining[k],
                        summary_views(pending_summaries@) == pending(m, o as int),
                    decreases batch.tasks@.len() - o,
                {
                    assert(m.remaining[o as int] == batch.remaining@[o as int]);
                    if batch.remaining[o] {
                        let ghost earlier = summary_views(pending_summaries@);
                        pending_summaries.push(batch.tasks[o].summary.clone());
                        assert(summary_views(pending_summaries@) =~= earlier.push(
                            m.tasks[o as int].summary@,
                        ));
                        running = true;
                    }
                    o = o + 1;
                }
                let complete = !running && batch.outstanding == 0;
                let spawn_call_id = batch.spawn_call_id.clone();
                if !complete {
                    batch.buffer = Vec::new();
                    assert(buffered(batch.buffer@) =~= Seq::empty());
                    self.live = Some(batch);
                }
                Ok(SpawnWave { spawn_call_id, tasks, receipt, pending_summaries, complete })
            },
        }
    }

    /// Ends a collection that was cancelled (the branches having been aborted
    /// where they have to be), with its error.
    pub fn cancelled(&mut self, cause: CollectCancellation) -> (r: String)
        requires
            old(self).wf(),
        ensures
            final(self).wf(),
            match cause {
                CollectCancellation::Tool { abort: false } => final(self)@ == old(self)@ && r@
                    == "spine.collect was cancelled before child completion"@,
                _ => final(self)@ is None && r@
                    == "spine.spawn was cancelled before child completion"@,
            },
    {
        match cause {
            CollectCancellation::Tool { abort: false } => {
                "spine.collect was cancelled before child completion".to_owned()
            },
            _ => {
                self.live = None;
                "spine.spawn was cancelled before child completion".to_owned()
            },
        }
    }
}

pub open spec fn summary_views(summaries: Seq<String>) -> Seq<Seq<char>> {
    summaries.map_values(|s: String| s@)
}

/// A branch's thread is known exactly where it runs, and is that of one of the
/// running branches of the task; where no two branches share a task, it is the
/// branch's own.
pub proof fn a_running_branch_has_its_thread(live: Seq<LiveBranch>, k: int)
    requires
        0 <= k < live.len(),
        forall|i: int, j: int|
            0 <= i < j < live.len() ==> (#[trigger] live[i]).ordinal != (#[trigger] live[j]).ordinal,
    ensures
        runs(live, live[k].ordinal as int),
        thread_of(live, live[k].ordinal as int) == Some(live[k].thread_id@),
    decreases live.len(),
{
    let rest = live.drop_last();
    if k < live.len() - 1 {
        assert(rest[k] == live[k]);
        assert(live[live.len() - 1].ordinal != live[k].ordinal);
        a_running_branch_has_its_thread(rest, k);
    }
}

/// A task none of whose branches runs has no thread.
pub proof fn a_task_without_a_branch_has_no_thread(live: Seq<LiveBranch>, ordinal: int)
    requires
        forall|k: int| 0 <= k < live.len() ==> (#[trigger] live[k]).ordinal != ordinal,
    ensures
        !runs(live, ordinal),
        thread_of(live, ordinal) is None,
    decreases live.len(),
{
    if live.len() > 0 {
        assert(live[live.len() - 1].ordinal != ordinal);
        assert forall|k: int| 0 <= k < live.drop_last().len() implies (
        #[trigger] live.drop_last()[k]).ordinal != ordinal by {
            assert(live.drop_last()[k] == live[k]);
        }
        a_task_without_a_branch_has_no_thread(live.drop_last(), ordinal);
    }
}

/// A branch that has ended shows how it ended and is not torn down again; it
/// counts as running, with its result outstanding, until that is kept.
pub proof fn an_ended_branch_shows_its_end(m: BatchModel, ordinal: int, result: ResultModel)
    requires
        batch_inv(m),
        0 <= ordinal < m.tasks.len(),
    ensures
        ({
            let ended = finished(m, ordinal, result);
            &&& ended.threads[ordinal] is None
            &&& result.outcome is Completed ==> ended.statuses[ordinal] == StatusModel::Completed(
                None,
            )
            &&& result.outcome is Aborted ==> ended.statuses[ordinal] == StatusModel::Shutdown
            &&& result.outcome is Errored ==> ended.statuses[ordinal] is Errored
            &&& ended == (BatchModel { statuses: ended.statuses, threads: ended.threads, ..m })
            &&& forall|o: int|
                0 <= o < m.tasks.len() && o != ordinal ==> #[trigger] ended.statuses[o]
                    == m.statuses[o] && ended.threads[o] == m.threads[o]
        }),
{
}

/// A result that is kept joins the end of the buffer under its task, its branch
/// no longer runs, and one result fewer is outstanding.
pub proof fn a_kept_result_waits_to_be_collected(m: BatchModel, ordinal: int, result: ResultModel)
    requires
        batch_inv(m),
        0 <= ordinal < m.tasks.len(),
        ordinal <= usize::MAX,
    ensures
        ({
            let kept = settled(m, ordinal, result);
            &&& kept.buffer.len() == m.buffer.len() + 1
            &&& kept.buffer.last().0 == ordinal && kept.buffer.last().1 == result
            &&& kept.buffer.drop_last() == m.buffer
            &&& !kept.remaining[ordinal]
            &&& m.outstanding > 0 ==> kept.outstanding == m.outstanding - 1
            &&& m.outstanding == 0 ==> kept.outstanding == 0
            &&& kept == (BatchModel {
                buffer: kept.buffer,
                remaining: kept.remaining,
                outstanding: kept.outstanding,
                ..m
            })
            &&& forall|o: int|
                0 <= o < m.remaining.len() && o != ordinal ==> #[trigger] kept.remaining[o]
                    == m.remaining[o]
        }),
{
}

/// Every task whose branch still runs is named as pending, by its summary, and
/// there are as many names as such tasks.
pub proof fn running_tasks_are_pending(m: BatchModel, o: int)
    requires
        batch_inv(m),
        0 <= o < m.tasks.len(),
    ensures
        m.remaining[o] ==> pending(m, m.tasks.len() as int).contains(m.tasks[o].summary@),
        pending(m, m.tasks.len() as int).len() == m.remaining.filter(|r: bool| r).len(),
{
    if m.remaining[o] {
        lemma_pending(m, o, m.tasks.len() as int);
    }
    lemma_pending_count(m, m.tasks.len() as int);
    assert(m.remaining.take(m.tasks.len() as int) =~= m.remaining);
}

/// Every name that is given as pending is that of a task whose branch runs.
pub proof fn pending_tasks_are_running(m: BatchModel, i: int)
    requires
        batch_inv(m),
        0 <= i < pending(m, m.tasks.len() as int).len(),
    ensures
        exists|o: int|
            0 <= o < m.tasks.len() && #[trigger] m.remaining[o] && m.tasks[o].summary@ == pending(
                m,
                m.tasks.len() as int,
            )[i],
{
    lemma_pending_only(m, m.tasks.len() as int, i);
}

proof fn lemma_pending(m: BatchModel, o: int, upto: int)
    requires
        0 <= o < upto,
        m.remaining[o],
    ensures
        pending(m, upto).contains(m.tasks[o].summary@),
    decreases upto,
{
    let before = pending(m, upto - 1);
    if o < upto - 1 {
        lemma_pending(m, o, upto - 1);
        let i = choose|i: int| 0 <= i < before.len() && before[i] == m.tasks[o].summary@;
        assert(pending(m, upto)[i] == m.tasks[o].summary@);
    } else {
        assert(pending(m, upto)[before.len() as int] == m.tasks[o].summary@);
    }
}

proof fn lemma_pending_only(m: BatchModel, upto: int, i: int)
    requires
        0 <= i < pending(m, upto).len(),
    ensures
        exists|o: int|
            0 <= o < upto && #[trigger] m.remaining[o] && m.tasks[o].summary@ == pending(m, upto)[i],
    decreases upto,
{
    if upto > 0 {
        if i < pending(m, upto - 1).len() {
            lemma_pending_only(m, upto - 1, i);
        } else {
            assert(m.remaining[upto - 1]);
        }
    }
}

proof fn lemma_pending_count(m: BatchModel, upto: int)
    requires
        0 <= upto <= m.remaining.len(),
    ensures
        pending(m, upto).len() == m.remaining.take(upto).filter(|r: bool| r).len(),
    decreases upto,
{
    reveal(Seq::filter);
    if upto > 0 {
        lemma_pending_count(m, upto - 1);
        assert(m.remaining.take(upto).drop_last() =~= m.remaining.take(upto - 1));
    } else {
        assert(m.remaining.take(0) =~= Seq::<bool>::empty());
    }
}

/// A batch is complete exactly where nothing is outstanding and no name is
/// pending.
pub proof fn a_complete_batch_has_nothing_pending(m: BatchModel)
    requires
        batch_inv(m),
    ensures
        complete(m) <==> m.outstanding == 0 && pending(m, m.tasks.len() as int).len() == 0,
{
    let n = m.tasks.len() as int;
    if pending(m, n).len() > 0 {
        pending_tasks_are_running(m, 0);
    }
    if !complete(m) && m.outstanding == 0 {
        let o = choose|o: int| 0 <= o < m.remaining.len() && m.remaining[o];
        lemma_pending(m, o, n);
    }
}

/// An abort tears down every branch that has a thread, under its own path.
pub proof fn an_abort_reaches_every_branch(m: BatchModel, o: int)
    requires
        batch_inv(m),
        0 <= o < m.tasks.len(),
        m.threads[o] is Some,
    ensures
        abort_targets(m, m.tasks.len() as int).contains((m.threads[o]->0, m.paths[o]@)),
{
    lemma_target(m, o, m.tasks.len() as int);
}

proof fn lemma_target(m: BatchModel, o: int, upto: int)
    requires
        0 <= o < upto,
        m.threads[o] is Some,
    ensures
        abort_targets(m, upto).contains((m.threads[o]->0, m.paths[o]@)),
    decreases upto,
{
    let target = (m.threads[o]->0, m.paths[o]@);
    let before = abort_targets(m, upto - 1);
    if o < upto - 1 {
        lemma_target(m, o, upto - 1);
        let i = choose|i: int| 0 <= i < before.len() && before[i] == target;
        assert(abort_targets(m, upto)[i] == target);
    } else {
        assert(abort_targets(m, upto)[before.len() as int] == target);
    }
}

/// An abort tears down nothing but the branches that have a thread, one by one.
pub proof fn an_abort_reaches_only_branches(m: BatchModel, i: int)
    requires
        batch_inv(m),
    ensures
        0 <= i < abort_targets(m, m.tasks.len() as int).len() ==> exists|o: int|
            0 <= o < m.tasks.len() && #[trigger] m.threads[o] == Some(
                abort_targets(m, m.tasks.len() as int)[i].0,
            ) && m.paths[o]@ == abort_targets(m, m.tasks.len() as int)[i].1,
        abort_targets(m, m.tasks.len() as int).len() == m.threads.filter(
            |t: Option<Seq<char>>| t is Some,
        ).len(),
{
    if 0 <= i < abort_targets(m, m.tasks.len() as int).len() {
        lemma_target_only(m, m.tasks.len() as int, i);
    }
    lemma_target_count(m, m.tasks.len() as int);
    assert(m.threads.take(m.tasks.len() as int) =~= m.threads);
}

proof fn lemma_target_only(m: BatchModel, upto: int, i: int)
    requires
        0 <= i < abort_targets(m, upto).len(),
    ensures
        exists|o: int|
            0 <= o < upto && #[trigger] m.threads[o] == Some(abort_targets(m, upto)[i].0)
                && m.paths[o]@ == abort_targets(m, upto)[i].1,
    decreases upto,
{
    if upto > 0 {
        if i < abort_targets(m, upto - 1).len() {
            lemma_target_only(m, upto - 1, i);
        } else {
            assert(m.threads[upto - 1] == Some(abort_targets(m, upto)[i].0));
        }
    }
}

proof fn lemma_target_count(m: BatchModel, upto: int)
    requires
        0 <= upto <= m.threads.len(),
    ensures
        abort_targets(m, upto).len() == m.threads.take(upto).filter(
            |t: Option<Seq<char>>| t is Some,
        ).len(),
    decreases upto,
{
    reveal(Seq::filter);
    if upto > 0 {
        lemma_target_count(m, upto - 1);
        assert(m.threads.take(upto).drop_last() =~= m.threads.take(upto - 1));
    } else {
        assert(m.threads.take(0) =~= Seq::<Option<Seq<char>>>::empty());
    }
}

/// Results can be collected as soon as there are any, or, where all are waited
/// for, once there are some and none is outstanding.
pub proof fn when_results_can_be_collected(m: BatchModel)
    ensures
        harvestable(m, CollectWait::Any) <==> m.buffer.len() > 0,
        harvestable(m, CollectWait::All) <==> m.buffer.len() > 0 && m.outstanding == 0,
{
}

} // verus!
