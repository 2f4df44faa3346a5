//! The session's side of the task tree: the context that the model sees, what
//! is replayed, and what a failure does.

use crate::archive::{replay_mode, CoordinatorError, ReplayMode};
use crate::coordinator::{ObservedItems, PreparedCompact, SpineCoordinator};
use crate::history::{copy_items, HistoryItem};
use crate::rollout_source::{
    effective_rollout, RolloutEntry, SeedSource, SpinetreeUserMessageProjectionEntry,
};
use vstd::prelude::*;

verus! {

use crate::archive::{
    archived_records, error_text, has_commit, orphan_commit, sampling_thread, ErrorModel,
};
use crate::coordinator::{
    bound, char_models, compaction_installed, faulted, observed, paired, source_chars,
    source_models, CoordinatorModel,
};
use crate::history::{item_models, item_source, HistoryModel};
use crate::replay::{replacement_places, BarrierModel};
use crate::rollout_source::{effective, numbered, projection_views};

/// The session's task tree and the context that the model sees of it.
pub struct SessionSpineRuntime {
    pub model_context: Vec<HistoryItem>,
    pub coordinator: Option<SpineCoordinator>,
}

/// The model of a [`SessionSpineRuntime`].
#[verifier::ext_equal]
pub ghost struct SessionModel {
    pub context: Seq<HistoryModel>,
    pub coordinator: Option<CoordinatorModel>,
}

pub open spec fn coordinator_view(coordinator: Option<SpineCoordinator>) -> Option<
    CoordinatorModel,
> {
    match coordinator {
        Some(coordinator) => Some(coordinator@),
        None => None,
    }
}

impl View for SessionSpineRuntime {
    type V = SessionModel;

    open spec fn view(&self) -> SessionModel {
        SessionModel {
            context: item_models(self.model_context@),
            coordinator: coordinator_view(self.coordinator),
        }
    }
}

/// The session with a fault latched.
pub open spec fn session_faulted(m: SessionModel, reason: Seq<char>) -> SessionModel {
    SessionModel {
        coordinator: match m.coordinator {
            Some(c) => Some(faulted(c, reason)),
            None => None,
        },
        ..m
    }
}

impl SessionSpineRuntime {
    pub open spec fn wf(&self) -> bool {
        self.coordinator matches Some(c) ==> c.wf()
    }

    /// The task tree of a session, if it has one.
    pub fn new(enabled: bool, coordinator: Option<SpineCoordinator>) -> (r: Option<Self>)
        requires
            coordinator matches Some(c) ==> c.wf(),
        ensures
            match r {
                Some(session) => enabled && session.wf() && session@.context.len() == 0
                    && session@.coordinator == coordinator_view(coordinator),
                None => !enabled,
            },
    {
        if enabled {
            Some(SessionSpineRuntime { model_context: Vec::new(), coordinator })
        } else {
            None
        }
    }

    /// Latches a fault; the answer is its reason.
    pub fn latch_error(&mut self, reason: String) -> (r: String)
        requires
            old(self).wf(),
        ensures
            final(self).wf(),
            r@ == reason@,
            final(self)@ == session_faulted(old(self)@, reason@),
    {
        let latched = reason.clone();
        let mut taken = None;
        std::mem::swap(&mut taken, &mut self.coordinator);
        if let Some(coordinator) = taken {
            let mut coordinator = coordinator;
            coordinator.latch_durability_fault(latched);
            self.coordinator = Some(coordinator);
        }
        reason
    }

    /// Takes in source items; the answer is what the runtime is told of them,
    /// and nothing where the session keeps no tree.
    pub fn append_response_items(&mut self, items: &Vec<SeedSource>) -> (r: Result<
        Option<ObservedItems>,
        String,
    >)
        requires
            old(self).wf(),
        ensures
            final(self).wf(),
            match old(self)@.coordinator {
                None => r matches Ok(None) && final(self)@ == old(self)@,
                Some(c) => match c.fault {
                    Some(reason) => r matches Err(message) && message@ == error_text(
                        ErrorModel::DurabilityFaulted(reason),
                    ) && final(self)@ == old(self)@,
                    None => {
                        &&& r matches Ok(Some(seen))
                        &&& char_models(seen.characters@) == source_chars(
                            source_models(items@),
                            c.next_boundary,
                        )
                        &&& item_models(seen.projected@) == source_models(items@).map_values(
                            |s: (HistoryModel, bool)| item_source(s.0),
                        )
                        &&& final(self)@ == (SessionModel {
                            coordinator: Some(observed(c, source_models(items@))),
                            ..old(self)@
                        })
                    },
                },
            },
    {
        let mut taken = None;
        std::mem::swap(&mut taken, &mut self.coordinator);
        match taken {
            None => Ok(None),
            Some(coordinator) => {
                let mut coordinator = coordinator;
                let result = coordinator.observe_response_items(items);
                self.coordinator = Some(coordinator);
                match result {
                    Ok(seen) => Ok(Some(seen)),
                    Err(error) => Err(self.latch_error(error.message())),
                }
            },
        }
    }

    /// Settles an observation: notes the source cells that the runtime made of
    /// the items, and takes over the context that follows; a failure is
    /// latched.
    pub fn context_prepared(
        &mut self,
        ids: Vec<String>,
        projected: &Vec<HistoryItem>,
        context: Result<Vec<HistoryItem>, CoordinatorError>,
    ) -> (r: Result<(), String>)
        requires
            old(self).wf(),
        ensures
            final(self).wf(),
            ({
                let bound_session = SessionModel {
                    coordinator: match old(self)@.coordinator {
                        Some(c) => Some(
                            CoordinatorModel {
                                source_items: bound(
                                    c.source_items,
                                    ids@,
                                    item_models(projected@),
                                    paired(ids@, item_models(projected@)),
                                ),
                                ..c
                            },
                        ),
                        None => None,
                    },
                    ..old(self)@
                };
                match context {
                    Ok(items) => r is Ok && final(self)@ == (SessionModel {
                        context: item_models(items@),
                        ..bound_session
                    }),
                    Err(error) => r matches Err(message) && message@ == error_text(error@)
                        && final(self)@ == session_faulted(bound_session, error_text(error@)),
                }
            }),
    {
        let mut taken = None;
        std::mem::swap(&mut taken, &mut self.coordinator);
        if let Some(coordinator) = taken {
            let mut coordinator = coordinator;
            coordinator.bind_source(ids, projected);
            self.coordinator = Some(coordinator);
        }
        match context {
            Ok(items) => {
                self.model_context = items;
                Ok(())
            },
            Err(error) => Err(self.latch_error(error.message())),
        }
    }

    /// How a rollout is replayed. Records that cannot be read fault the
    /// session.
    pub fn replay_mode(&mut self, rollout: &Vec<RolloutEntry>) -> (r: Result<ReplayMode, String>)
        requires
            old(self).wf(),
        ensures
            final(self).wf(),
            match archived_records(effective(numbered(rollout@))) {
                Err(error) => {
                    let reason = "invalid canonical Spine rollout metadata: "@ + error_text(error);
                    r matches Err(message) && message@ == reason && final(self)@
                        == session_faulted(old(self)@, reason)
                },
                Ok(records) => match sampling_thread(records) {
                    Some(thread) => {
                        &&& r matches Ok(ReplayMode::Canonical { thread: t, records: rs })
                        &&& t@ == thread
                        &&& rs@ == records
                        &&& final(self)@ == old(self)@
                    },
                    None => if has_commit(records) {
                        let reason = "invalid canonical Spine rollout metadata: "@ + error_text(
                            orphan_commit(),
                        );
                        r matches Err(message) && message@ == reason && final(self)@
                            == session_faulted(old(self)@, reason)
                    } else {
                        r matches Ok(ReplayMode::Native) && final(self)@ == old(self)@
                    },
                },
            },
    {
        match replay_mode(&effective_rollout(rollout)) {
            Ok(mode) => Ok(mode),
            Err(error) => {
                let mut reason = String::from_str("invalid canonical Spine rollout metadata: ");
                reason.append(error.message().as_str());
                Err(self.latch_error(reason))
            },
        }
    }

    /// Ends a replay from records: takes over the context, or latches the
    /// failure.
    pub fn replay_finished(&mut self, context: Result<Vec<HistoryItem>, CoordinatorError>) -> (r:
        Result<(), String>)
        requires
            old(self).wf(),
        ensures
            final(self).wf(),
            match old(self)@.coordinator {
                None => {
                    &&& r matches Err(message)
                    &&& message@ == "Spine coordinator is unavailable during replay"@
                    &&& final(self)@ == old(self)@
                },
                Some(_) => match context {
                    Ok(items) => r is Ok && final(self)@ == (SessionModel {
                        context: item_models(items@),
                        ..old(self)@
                    }),
                    Err(error) => r matches Err(message) && message@ == error_text(error@)
                        && final(self)@ == session_faulted(old(self)@, error_text(error@)),
                },
            },
    {
        if self.coordinator.is_none() {
            return Err("Spine coordinator is unavailable during replay".to_owned());
        }
        match context {
            Ok(items) => {
                self.model_context = items;
                Ok(())
            },
            Err(error) => Err(self.latch_error(error.message())),
        }
    }

    /// Takes over a context.
    pub fn install_model_context(&mut self, items: Vec<HistoryItem>)
        requires
            old(self).wf(),
        ensures
            final(self).wf(),
            final(self)@ == (SessionModel { context: item_models(items@), ..old(self)@ }),
    {
        self.model_context = items;
    }

    /// Whether a sampling attempt is recorded.
    pub fn records_sampling(&self, jit_enabled: bool) -> (r: bool)
        ensures
            r == (self@.coordinator is Some && jit_enabled),
    {
        self.coordinator.is_some() && jit_enabled
    }

    /// Prepares a compaction of the runtime's epoch.
    pub fn prepare_compact(&self, thread: &str, epoch: u64, replacement: &Vec<HistoryItem>) -> (r:
        Result<PreparedCompact, String>)
        requires
            self@.coordinator is Some,
        ensures
            match self@.coordinator->Some_0.fault {
                Some(reason) => r matches Err(message) && message@ == error_text(
                    ErrorModel::DurabilityFaulted(reason),
                ),
                None => if epoch == u64::MAX {
                    r matches Err(message) && message@ == error_text(
                        ErrorModel::Identity("Spine context epoch is exhausted"@),
                    )
                } else {
                    r matches Ok(prepared) && prepared.barrier@ == (BarrierModel {
                        thread: thread@,
                        epoch,
                        next_epoch: (epoch + 1) as u64,
                        boundary: self@.coordinator->Some_0.next_boundary,
                        replacement_boundaries: replacement_places(
                            self@.coordinator->Some_0.next_boundary,
                            replacement@.len(),
                        ),
                    }) && item_models(prepared.replacement@) == item_models(replacement@)
                },
            },
    {
        match &self.coordinator {
            Some(coordinator) => match coordinator.prepare_compact(thread, epoch, replacement) {
                Ok(prepared) => Ok(prepared),
                Err(error) => Err(error.message()),
            },
            None => {
                assert(false);
                Err(String::new())
            },
        }
    }

    /// Installs a compaction that was persisted: the replacement is the context.
    pub fn install_compact(&mut self, prepared: PreparedCompact, ids: Vec<String>)
        requires
            old(self).wf(),
            old(self)@.coordinator is Some,
        ensures
            final(self).wf(),
            final(self)@ == (SessionModel {
                context: item_models(prepared.replacement@),
                coordinator: Some(
                    compaction_installed(
                        old(self)@.coordinator->Some_0,
                        prepared.barrier@,
                        item_models(prepared.replacement@),
                        ids@,
                    ),
                ),
            }),
    {
        let context = copy_items(&prepared.replacement);
        let mut taken = None;
        std::mem::swap(&mut taken, &mut self.coordinator);
        if let Some(coordinator) = taken {
            let mut coordinator = coordinator;
            coordinator.install_compact(prepared, ids);
            self.coordinator = Some(coordinator);
        }
        self.model_context = context;
    }

    /// The commit was persisted but the runtime refused it: the session is
    /// faulted.
    pub fn install_failed(&mut self, error: CoordinatorError) -> (r: String)
        requires
            old(self).wf(),
        ensures
            final(self).wf(),
            r@ == "Spine canonical install failed after durable acknowledgement: "@ + error_text(
                error@,
            ),
            final(self)@ == session_faulted(old(self)@, error_text(error@)),
    {
        let reason = self.latch_error(error.message());
        let mut message = String::from_str(
            "Spine canonical install failed after durable acknowledgement: ",
        );
        message.append(reason.as_str());
        message
    }

    /// The commit is installed: its context and what the user said are taken
    /// over.
    pub fn commit_installed(
        &mut self,
        items: Vec<HistoryItem>,
        user_messages: Vec<SpinetreeUserMessageProjectionEntry>,
    ) -> (r: Result<(), String>)
        requires
            old(self).wf(),
        ensures
            final(self).wf(),
            final(self)@.context == item_models(items@),
            match old(self)@.coordinator {
                None => {
                    &&& r matches Err(message)
                    &&& message@ == "Spine coordinator disappeared before publication"@
                    &&& final(self)@.coordinator is None
                },
                Some(c) => r is Ok && final(self)@.coordinator == Some(
                    CoordinatorModel { user_messages: projection_views(user_messages@), ..c },
                ),
            },
    {
        self.model_context = items;
        let mut taken = None;
        std::mem::swap(&mut taken, &mut self.coordinator);
        match taken {
            None => Err("Spine coordinator disappeared before publication".to_owned()),
            Some(coordinator) => {
                let mut coordinator = coordinator;
                coordinator.publish_user_messages(user_messages);
                self.coordinator = Some(coordinator);
                Ok(())
            },
        }
    }
}

/// A record of a compaction checkpoint.
#[derive(Clone, Copy, Debug, PartialEq, Eq, Structural)]
pub enum CheckpointRecord {
    Compacted,
    WorldState,
    TurnContext,
    SettingsApplied,
}

/// The records of a compaction checkpoint, in the order in which they are
/// persisted together: the compaction, the world state and the turn's context
/// where they are known, and the settings in force.
pub fn checkpoint_records(has_world_state: bool, has_turn_context: bool) -> (r: Vec<
    CheckpointRecord,
>)
    ensures
        r@ == seq![CheckpointRecord::Compacted] + (if has_world_state {
            seq![CheckpointRecord::WorldState]
        } else {
            Seq::empty()
        }) + (if has_turn_context {
            seq![CheckpointRecord::TurnContext]
        } else {
            Seq::empty()
        }) + seq![CheckpointRecord::SettingsApplied],
{
    let mut records: Vec<CheckpointRecord> = Vec::new();
    records.push(CheckpointRecord::Compacted);
    if has_world_state {
        records.push(CheckpointRecord::WorldState);
    }
    if has_turn_context {
        records.push(CheckpointRecord::TurnContext);
    }
    records.push(CheckpointRecord::SettingsApplied);
    records
}

/// Only the first fault of a session counts, and it changes nothing else; a
/// session without a tree has none.
pub proof fn the_first_fault_counts(m: SessionModel, first: Seq<char>, second: Seq<char>)
    ensures
        session_faulted(m, first).context == m.context,
        m.coordinator is None ==> session_faulted(m, first) == m,
        m.coordinator matches Some(c) ==> {
            let f = session_faulted(m, first);
            &&& f.coordinator matches Some(d) && d.fault is Some
            &&& c.fault is None ==> f.coordinator->Some_0.fault == Some(first)
            &&& c.fault is Some ==> f == m
            &&& f.coordinator->Some_0 == (CoordinatorModel {
                fault: f.coordinator->Some_0.fault,
                ..c
            })
        },
        session_faulted(session_faulted(m, first), second) == session_faulted(m, first),
{
}

} // verus!
