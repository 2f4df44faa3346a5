//! A sampling attempt: what is recorded when it starts, what becomes of it when
//! it ends, and the configuration that a resumed session takes from it.

use crate::archive::{
    encode_spine_sampling_started, encode_spine_transition, CoordinatorError,
};
use crate::coordinator::{durable_input_tokens, PreparedContextPlan, SpineCoordinator};
use crate::rollout_source::{
    effective_rollout, ArchiveRecord, ArchivedRecord, ReplaySeedItem, RolloutEntry,
};
use vstd::prelude::*;

verus! {

use crate::archive::{ErrorModel, SPINE_ROLLOUT_VERSION};
use crate::coordinator::{coordinator_inv, seed_view, with_window, CoordinatorModel};
use crate::history::{item_models, HistoryModel};
use crate::replay::{
    first_sampling, fresh, replay_of, replayed, replayed_all, seed_models, seeded_all, InputModel,
    PlanModel, SeedModel,
};
use crate::rollout_source::{effective, entries, numbered, projection_views, Numbered};

/// What is recorded when a sampling attempt starts.
#[derive(Debug)]
pub struct SpineSamplingStartedItem {
    pub record: ArchivedRecord,
    pub sdk_config: Option<String>,
    pub replay_seed: Option<Vec<ReplaySeedItem>>,
}

/// Why no start is recorded, if there is a reason.
pub open spec fn start_error(
    record: Result<ArchiveRecord, CoordinatorError>,
    sdk_config: Result<String, String>,
) -> Option<ErrorModel> {
    match record {
        Err(error) => Some(error@),
        Ok(record) => if !(record is SamplingStarted) {
            Some(
                ErrorModel::Archive(
                    "Spine sampling-start item requires a sampling-started record"@,
                ),
            )
        } else {
            match sdk_config {
                Err(reason) => Some(ErrorModel::Codec(reason@)),
                Ok(_) => None,
            }
        },
    }
}

/// What the end of a sampling attempt becomes.
#[derive(Debug)]
pub enum SamplingFinish {
    /// There is nothing to commit.
    Nothing,
    /// The prepared commit is to be discarded, for the given reason.
    Discard(CoordinatorError),
    /// The transition is to be persisted, and then the context installed.
    Commit { transition: ArchivedRecord, context: PreparedContextPlan },
}

/// What the end of a sampling attempt becomes, as the contracts speak of it.
pub ghost enum FinishModel {
    Nothing,
    Discard(ErrorModel),
    Commit {
        transition: ArchivedRecord,
        items: Seq<HistoryModel>,
        user_messages: Seq<(u64, Seq<char>)>,
    },
}

impl View for SamplingFinish {
    type V = FinishModel;

    open spec fn view(&self) -> FinishModel {
        match *self {
            SamplingFinish::Nothing => FinishModel::Nothing,
            SamplingFinish::Discard(error) => FinishModel::Discard(error@),
            SamplingFinish::Commit { transition, context } => FinishModel::Commit {
                transition,
                items: item_models(context.items@),
                user_messages: projection_views(context.user_messages@),
            },
        }
    }
}

/// The end of a sampling attempt by what the runtime prepared and by the
/// context that its plan gives.
pub open spec fn finished(
    prepared: Option<ArchiveRecord>,
    context: Result<PreparedContextPlan, String>,
) -> FinishModel {
    match prepared {
        None => FinishModel::Nothing,
        Some(record) => if !(record is SamplingCommit) {
            FinishModel::Discard(
                ErrorModel::Archive("Spine transition item requires a sampling commit"@),
            )
        } else {
            match context {
                Err(reason) => FinishModel::Discard(ErrorModel::ContextPlan(reason@)),
                Ok(plan) => FinishModel::Commit {
                    transition: ArchivedRecord {
                        version: SPINE_ROLLOUT_VERSION,
                        payload: Ok(record),
                    },
                    items: item_models(plan.items@),
                    user_messages: projection_views(plan.user_messages@),
                },
            }
        },
    }
}

/// Judges the end of a sampling attempt.
pub fn finish_sampling(
    prepared: Option<ArchiveRecord>,
    context: Result<PreparedContextPlan, String>,
) -> (r: SamplingFinish)
    ensures
        r@ == finished(prepared, context),
{
    match prepared {
        None => SamplingFinish::Nothing,
        Some(record) => match encode_spine_transition(record) {
            Err(error) => SamplingFinish::Discard(error),
            Ok(transition) => match context {
                Err(reason) => SamplingFinish::Discard(CoordinatorError::ContextPlan(reason)),
                Ok(context) => SamplingFinish::Commit { transition, context },
            },
        },
    }
}

impl SpineCoordinator {
    /// What is recorded when a sampling attempt starts. The first start takes
    /// along what preceded it; a start that is not recorded leaves that behind.
    pub fn sampling_started_item(
        &mut self,
        record: Result<ArchiveRecord, CoordinatorError>,
        sdk_config: Result<String, String>,
    ) -> (r: Result<SpineSamplingStartedItem, CoordinatorError>)
        requires
            old(self).wf(),
        ensures
            final(self).wf(),
            match start_error(record, sdk_config) {
                Some(error) => {
                    &&& r matches Err(e)
                    &&& e@ == error
                    &&& final(self)@ == old(self)@
                },
                None => {
                    &&& r matches Ok(item)
                    &&& item.record == (ArchivedRecord {
                        version: SPINE_ROLLOUT_VERSION,
                        payload: Ok(record->Ok_0),
                    })
                    &&& item.sdk_config == Some(sdk_config->Ok_0)
                    &&& seed_view(item.replay_seed) == old(self)@.seed
                    &&& final(self)@ == (CoordinatorModel { seed: None, ..old(self)@ })
                },
            },
    {
        let record = match record {
            Ok(record) => record,
            Err(error) => {
                return Err(error);
            },
        };
        let record = match encode_spine_sampling_started(record) {
            Ok(record) => record,
            Err(error) => {
                return Err(error);
            },
        };
        let sdk_config = match sdk_config {
            Ok(sdk_config) => sdk_config,
            Err(reason) => {
                return Err(CoordinatorError::Codec(reason));
            },
        };
        let replay_seed = self.take_replay_seed();
        Ok(SpineSamplingStartedItem { record, sdk_config: Some(sdk_config), replay_seed })
    }

    /// Begins the end of a sampling attempt: notes the context window where it
    /// is known, and says with which token count the runtime is to finish.
    pub fn begin_finish(&mut self, model_context_window: Option<i64>, input_tokens: Option<i64>)
        -> (r: Result<Option<u64>, CoordinatorError>)
        requires
            old(self).wf(),
        ensures
            final(self).wf(),
            final(self)@ == (match model_context_window {
                Some(window) => with_window(old(self)@, window),
                None => old(self)@,
            }),
            match old(self)@.fault {
                Some(reason) => r matches Err(error) && error@ == ErrorModel::DurabilityFaulted(
                    reason,
                ),
                None => r == Ok::<Option<u64>, CoordinatorError>(
                    match input_tokens {
                        Some(tokens) => if tokens >= 0 {
                            Some(tokens as u64)
                        } else {
                            None
                        },
                        None => None,
                    },
                ),
            },
    {
        if let Some(window) = model_context_window {
            self.record_context_window(window);
        }
        match self.require_healthy() {
            Err(error) => Err(error),
            Ok(()) => Ok(durable_input_tokens(input_tokens)),
        }
    }
}

/// The configuration of the last start that recorded one.
pub open spec fn last_config(list: Seq<Numbered>) -> Option<Seq<char>>
    decreases list.len(),
{
    if list.len() == 0 {
        None
    } else {
        match list.last().1 {
            RolloutEntry::SamplingStarted { sdk_config: Some(config), .. } => Some(config@),
            _ => last_config(list.drop_last()),
        }
    }
}

/// The configuration that a session resumed from a rollout takes over: the one
/// of the last start in effect that recorded one.
pub fn saved_sampling_config(rollout: &Vec<RolloutEntry>) -> (r: Option<String>)
    ensures
        match r {
            Some(config) => last_config(effective(numbered(rollout@))) == Some(config@),
            None => last_config(effective(numbered(rollout@))) is None,
        },
{
    let list = effective_rollout(rollout);
    let ghost all = entries(list@);
    let mut n: usize = list.len();
    assert(all.take(n as int) =~= all);
    while n > 0
        invariant
            n <= list@.len(),
            all == entries(list@),
            all == effective(numbered(rollout@)),
            last_config(all) == last_config(all.take(n as int)),
        decreases n,
    {
        proof {
            let part = all.take(n as int);
            assert(part.last() == all[n - 1]);
            assert(part.drop_last() =~= all.take(n - 1));
            assert(all[n - 1].1 == *list@[n - 1].1);
        }
        if let RolloutEntry::SamplingStarted { sdk_config: Some(config), .. } = list[n - 1].1 {
            return Some(config.clone());
        }
        n = n - 1;
    }
    None
}

/// What a seed tells the runtime, and where it ends, depends neither on the
/// thread nor on what was persisted beside it.
proof fn lemma_seed_alone(
    a: PlanModel,
    b: PlanModel,
    list_a: Seq<Numbered>,
    list_b: Seq<Numbered>,
    seed: Seq<SeedModel>,
)
    requires
        a.inputs == b.inputs,
        a.next_boundary == b.next_boundary,
        seeded_all(b, list_b, seed) is Ok,
    ensures
        seeded_all(a, list_a, seed) is Ok,
        seeded_all(a, list_a, seed)->Ok_0.inputs == seeded_all(b, list_b, seed)->Ok_0.inputs,
        seeded_all(a, list_a, seed)->Ok_0.next_boundary == seeded_all(
            b,
            list_b,
            seed,
        )->Ok_0.next_boundary,
        seeded_all(a, list_a, seed)->Ok_0.used == a.used,
    decreases seed.len(),
{
    if seed.len() > 0 {
        lemma_seed_alone(a, b, list_a, list_b, seed.drop_last());
    }
}

proof fn lemma_only_sampling_is_last(list: Seq<Numbered>)
    requires
        list.len() > 0,
        list.last().1 is SamplingStarted,
        forall|i: int| 0 <= i < list.len() - 1 ==> !((#[trigger] list[i]).1 is SamplingStarted),
    ensures
        first_sampling(list) == list.len() - 1,
{
    lemma_none_before(list.drop_last());
}

proof fn lemma_none_before(list: Seq<Numbered>)
    requires
        forall|i: int| 0 <= i < list.len() ==> !((#[trigger] list[i]).1 is SamplingStarted),
    ensures
        first_sampling(list) == list.len(),
    decreases list.len(),
{
    if list.len() > 0 {
        lemma_none_before(list.drop_last());
        assert(!(list[list.len() - 1].1 is SamplingStarted));
    }
}

/// A session that is resumed from the record of its first sampling attempt
/// tells the runtime what it was told before, and stands where it stood.
pub proof fn resuming_leads_to_the_present(
    m: CoordinatorModel,
    before: Seq<Numbered>,
    number: usize,
    item: SpineSamplingStartedItem,
    seed: Vec<ReplaySeedItem>,
    record: ArchiveRecord,
    thread: Seq<char>,
)
    requires
        coordinator_inv(m),
        m.seed == Some(seed_models(seed@)),
        item.replay_seed == Some(seed),
        record is SamplingStarted,
        item.record == (ArchivedRecord { version: SPINE_ROLLOUT_VERSION, payload: Ok(record) }),
        forall|i: int| 0 <= i < before.len() ==> !((#[trigger] before[i]).1 is SamplingStarted),
    ensures
        ({
            let entry = RolloutEntry::SamplingStarted {
                record: item.record,
                sdk_config: item.sdk_config,
                replay_seed: Some(Ok(seed)),
            };
            let resumed = replay_of(
                before.push((number, entry)),
                thread,
                seq![record],
            );
            let told = seeded_all(fresh(Seq::empty()), Seq::empty(), seed_models(seed@));
            &&& resumed is Ok
            &&& resumed->Ok_0.next_boundary == m.next_boundary
            &&& resumed->Ok_0.inputs == told->Ok_0.inputs.push(InputModel::Archive(record))
        }),
{
    let entry = RolloutEntry::SamplingStarted {
        record: item.record,
        sdk_config: item.sdk_config,
        replay_seed: Some(Ok(seed)),
    };
    let list = before.push((number, entry));
    assert forall|i: int| 0 <= i < list.len() - 1 implies !((#[trigger] list[i]).1
        is SamplingStarted) by {
        assert(list[i] == before[i]);
    }
    lemma_only_sampling_is_last(list);
    let at = first_sampling(list);
    lemma_seed_alone(
        fresh(thread),
        fresh(Seq::empty()),
        list.take(at),
        Seq::empty(),
        seed_models(seed@),
    );
    let start = seeded_all(fresh(thread), list.take(at), seed_models(seed@))->Ok_0;
    let tail = list.skip(at);
    assert(tail.drop_last() =~= Seq::<Numbered>::empty());
    assert(tail.last() == (number, entry));
    assert(replayed_all(start, tail.drop_last(), seq![record]) == Ok::<PlanModel, ErrorModel>(
        start,
    ));
    assert(replayed_all(start, tail, seq![record]) == replayed(start, entry, seq![record]));
}

/// A sampling attempt begins only with a record that says so and a configuration
/// that was saved, and ends in a commit only with a record of one and a context;
/// what is missing is named.
pub proof fn an_attempt_that_fails_says_why(
    record: Result<ArchiveRecord, CoordinatorError>,
    sdk_config: Result<String, String>,
    prepared: Option<ArchiveRecord>,
    context: Result<PreparedContextPlan, String>,
)
    ensures
        start_error(record, sdk_config) is None <==> (record matches Ok(r) && r is SamplingStarted)
            && sdk_config is Ok,
        record matches Err(error) ==> start_error(record, sdk_config) == Some(error@),
        record matches Ok(r) ==> !(r is SamplingStarted) ==> start_error(record, sdk_config)
            == Some(
            ErrorModel::Archive("Spine sampling-start item requires a sampling-started record"@),
        ),
        (record matches Ok(r) && r is SamplingStarted) ==> (sdk_config matches Err(reason)
            ==> start_error(record, sdk_config) == Some(ErrorModel::Codec(reason@))),
        finished(prepared, context) is Nothing <==> prepared is None,
        finished(prepared, context) is Commit <==> (prepared matches Some(r) && r is SamplingCommit)
            && context is Ok,
        prepared matches Some(r) ==> !(r is SamplingCommit) ==> finished(prepared, context)
            == FinishModel::Discard(
            ErrorModel::Archive("Spine transition item requires a sampling commit"@),
        ),
        (prepared matches Some(r) && r is SamplingCommit) ==> (context matches Err(reason)
            ==> finished(prepared, context) == FinishModel::Discard(
            ErrorModel::ContextPlan(reason@),
        )),
{
}

} // verus!
