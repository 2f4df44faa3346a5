//! The state that a session keeps of its task tree: where the source stands,
//! which item each source cell is, and what precedes the first recorded
//! sampling attempt.

use crate::archive::CoordinatorError;
use crate::history::{copy_items, response_item_to_char_and_source, HistoryItem, SpineChar};
use crate::replay::{boundary_after, replacement_boundaries, ContextWindowSample, ReplayPlan};
use crate::rollout_source::{
    copy_user_messages, CompactBarrier, ReplaySeedItem, SeedSource,
    SpinetreeUserMessageProjectionEntry, TokenInfo,
};
use crate::tools::SpineTool;
use vstd::hash_map::StringHashMap;
use vstd::prelude::*;

verus! {

use crate::archive::ErrorModel;
use crate::history::{
    item_char, item_models, item_source, texts, CharModel, HistoryModel,
};
use crate::replay::{
    after_places, fresh, next_place, replacement_models, replacement_places, seed_models,
    seeded_all, BarrierModel, PlanModel, SeedModel,
};
use crate::rollout_source::projection_views;
use crate::shapes::text_view;

/// The tokens that a place of the source was sampled with.
#[derive(Clone, Copy, Debug, PartialEq, Eq, Structural)]
pub struct TokenUsageSample {
    pub boundary: u64,
    pub input_tokens: i64,
}

/// What a session keeps of its task tree.
pub struct SpineCoordinator {
    pub next_boundary: u64,
    pub source_items: StringHashMap<HistoryItem>,
    pub replay_seed: Option<Vec<ReplaySeedItem>>,
    pub durability_fault: Option<String>,
    pub usage_samples: Vec<TokenUsageSample>,
    pub context_window_samples: Vec<ContextWindowSample>,
    pub user_messages: Vec<SpinetreeUserMessageProjectionEntry>,
}

/// The model of a [`SpineCoordinator`].
#[verifier::ext_equal]
pub ghost struct CoordinatorModel {
    pub next_boundary: u64,
    pub source_items: Map<Seq<char>, HistoryModel>,
    pub seed: Option<Seq<SeedModel>>,
    pub fault: Option<Seq<char>>,
    pub usage: Seq<TokenUsageSample>,
    pub windows: Seq<ContextWindowSample>,
    pub user_messages: Seq<(u64, Seq<char>)>,
}

pub open spec fn seed_view(seed: Option<Vec<ReplaySeedItem>>) -> Option<Seq<SeedModel>> {
    match seed {
        Some(seed) => Some(seed_models(seed@)),
        None => None,
    }
}

impl View for SpineCoordinator {
    type V = CoordinatorModel;

    open spec fn view(&self) -> CoordinatorModel {
        CoordinatorModel {
            next_boundary: self.next_boundary,
            source_items: self.source_items@.map_values(|i: HistoryItem| i@),
            seed: seed_view(self.replay_seed),
            fault: text_view(self.durability_fault),
            usage: self.usage_samples@,
            windows: self.context_window_samples@,
            user_messages: projection_views(self.user_messages@),
        }
    }
}

/// The seed, while it is kept, replays to where the source stands.
pub open spec fn coordinator_inv(m: CoordinatorModel) -> bool {
    m.seed matches Some(seed) ==> seed_leads_to(seed, m.next_boundary)
}

/// Whether replaying a seed on its own succeeds and ends at the given boundary.
pub open spec fn seed_leads_to(seed: Seq<SeedModel>, boundary: u64) -> bool {
    seeded_all(fresh(Seq::empty()), Seq::empty(), seed) matches Ok(end) && end.next_boundary
        == boundary
}

/// The boundary after some more source items.
pub open spec fn advanced(boundary: u64, count: nat) -> u64
    decreases count,
{
    if count == 0 {
        boundary
    } else {
        next_place(advanced(boundary, (count - 1) as nat))
    }
}

/// Source items with the host's classification.
pub open spec fn source_models(items: Seq<SeedSource>) -> Seq<(HistoryModel, bool)> {
    items.map_values(|s: SeedSource| (s.item@, s.contextual))
}

/// The seed entries of source items that begin at a boundary.
pub open spec fn source_seed(items: Seq<(HistoryModel, bool)>, boundary: u64) -> Seq<SeedModel> {
    Seq::new(
        items.len(),
        |i: int|
            SeedModel::Source { boundary: advanced(boundary, i as nat), item: Some(items[i]) },
    )
}

/// The characters of source items that begin at a boundary.
pub open spec fn source_chars(items: Seq<(HistoryModel, bool)>, boundary: u64) -> Seq<CharModel> {
    Seq::new(
        items.len(),
        |i: int| item_char(items[i].0, items[i].1, advanced(boundary, i as nat)),
    )
}

/// The state after source items were observed.
pub open spec fn observed(m: CoordinatorModel, items: Seq<(HistoryModel, bool)>) -> CoordinatorModel {
    CoordinatorModel {
        next_boundary: advanced(m.next_boundary, items.len()),
        seed: match m.seed {
            Some(seed) => Some(seed + source_seed(items, m.next_boundary)),
            None => None,
        },
        ..m
    }
}

/// What the runtime is told of observed items, and what they stand for.
#[derive(Debug, PartialEq, Eq)]
pub struct ObservedItems {
    pub characters: Vec<SpineChar>,
    pub projected: Vec<HistoryItem>,
}

pub open spec fn char_models(characters: Seq<SpineChar>) -> Seq<CharModel> {
    characters.map_values(|c: SpineChar| c@)
}

/// Items by their identities, as far as both go; of two with one identity the
/// later one counts.
pub open spec fn bound(
    items: Map<Seq<char>, HistoryModel>,
    ids: Seq<String>,
    projected: Seq<HistoryModel>,
    count: int,
) -> Map<Seq<char>, HistoryModel>
    decreases count,
{
    if count <= 0 {
        items
    } else {
        bound(items, ids, projected, count - 1).insert(ids[count - 1]@, projected[count - 1])
    }
}

/// How many items have an identity.
pub open spec fn paired(ids: Seq<String>, projected: Seq<HistoryModel>) -> int {
    if ids.len() <= projected.len() {
        ids.len() as int
    } else {
        projected.len() as int
    }
}

/// The state with a durability fault; the first one stays.
pub open spec fn faulted(m: CoordinatorModel, reason: Seq<char>) -> CoordinatorModel {
    match m.fault {
        Some(_) => m,
        None => CoordinatorModel { fault: Some(reason), ..m },
    }
}

/// The state after a context window was seen; the same one at the same place
/// counts once.
pub open spec fn with_window(m: CoordinatorModel, model_context_window: i64) -> CoordinatorModel {
    let sample = ContextWindowSample { boundary: m.next_boundary, model_context_window };
    if m.windows.len() > 0 && m.windows.last() == sample {
        m
    } else {
        CoordinatorModel { windows: m.windows.push(sample), ..m }
    }
}

/// The state after a token count.
pub open spec fn counted(m: CoordinatorModel, info: TokenInfo) -> CoordinatorModel {
    let seeded = CoordinatorModel {
        seed: match m.seed {
            Some(seed) => Some(
                seed.push(
                    SeedModel::Usage {
                        boundary: m.next_boundary,
                        input_tokens: info.input_tokens,
                        model_context_window: info.model_context_window,
                    },
                ),
            ),
            None => None,
        },
        ..m
    };
    let seen = match info.model_context_window {
        Some(window) => with_window(seeded, window),
        None => seeded,
    };
    CoordinatorModel {
        usage: seen.usage.push(
            TokenUsageSample { boundary: m.next_boundary, input_tokens: info.input_tokens },
        ),
        ..seen
    }
}

/// The state after a compaction. What the user said survives it.
pub open spec fn compaction_installed(
    m: CoordinatorModel,
    barrier: BarrierModel,
    replacement: Seq<HistoryModel>,
    ids: Seq<String>,
) -> CoordinatorModel {
    CoordinatorModel {
        next_boundary: after_places(barrier.boundary, barrier.replacement_boundaries),
        source_items: bound(Map::empty(), ids, replacement, paired(ids, replacement)),
        seed: match m.seed {
            Some(seed) => Some(
                seed.push(
                    SeedModel::Compact {
                        barrier,
                        replacement: replacement.map_values(|i: HistoryModel| Some(i)),
                    },
                ),
            ),
            None => None,
        },
        ..m
    }
}

/// The state after a replay.
pub open spec fn replay_installed(
    m: CoordinatorModel,
    plan: PlanModel,
    ids: Seq<String>,
    usage: Seq<TokenUsageSample>,
    user_messages: Seq<(u64, Seq<char>)>,
) -> CoordinatorModel {
    CoordinatorModel {
        next_boundary: plan.next_boundary,
        source_items: bound(Map::empty(), ids, plan.projected, paired(ids, plan.projected)),
        seed: None,
        fault: m.fault,
        usage,
        windows: plan.samples,
        user_messages,
    }
}

/// The context that a plan gives: its items, and what the user said in them.
#[derive(Debug, PartialEq, Eq)]
pub struct PreparedContextPlan {
    pub items: Vec<HistoryItem>,
    pub user_messages: Vec<SpinetreeUserMessageProjectionEntry>,
}

/// What a commit or a replay brings: the context from now on, and the spawn
/// calls that it settles.
#[derive(Debug, PartialEq, Eq)]
pub struct InstalledCanonicalCommit {
    pub context: PreparedContextPlan,
    pub settled_spawn_call_ids: Vec<String>,
}

/// The model of an [`InstalledCanonicalCommit`].
#[verifier::ext_equal]
pub ghost struct CommitModel {
    pub items: Seq<HistoryModel>,
    pub user_messages: Seq<(u64, Seq<char>)>,
    pub settled: Seq<Seq<char>>,
}

impl View for InstalledCanonicalCommit {
    type V = CommitModel;

    open spec fn view(&self) -> CommitModel {
        CommitModel {
            items: item_models(self.context.items@),
            user_messages: projection_views(self.context.user_messages@),
            settled: texts(self.settled_spawn_call_ids@),
        }
    }
}

/// What a replay brings: the planned context with what the user said in it, or
/// the native history with nothing said, where nothing was planned. A replay
/// settles no spawn call.
pub open spec fn replayed_commit(
    planned: Option<PreparedContextPlan>,
    native_history: Seq<HistoryItem>,
) -> CommitModel {
    CommitModel {
        items: match planned {
            Some(plan) => item_models(plan.items@),
            None => item_models(native_history),
        },
        user_messages: match planned {
            Some(plan) => projection_views(plan.user_messages@),
            None => Seq::empty(),
        },
        settled: Seq::empty(),
    }
}

impl InstalledCanonicalCommit {
    /// What an installed commit brings.
    pub fn committed(context: PreparedContextPlan, executions: &Vec<CommittedExecution>) -> (r: Self)
        ensures
            r@ == (CommitModel {
                items: item_models(context.items@),
                user_messages: projection_views(context.user_messages@),
                settled: spawn_calls(executions@),
            }),
    {
        InstalledCanonicalCommit {
            context,
            settled_spawn_call_ids: settled_spawn_call_ids(executions),
        }
    }

    /// What a replay brings.
    pub fn replayed(
        planned: Option<PreparedContextPlan>,
        native_history: &Vec<HistoryItem>,
    ) -> (r: Self)
        ensures
            r@ == replayed_commit(planned, native_history@),
    {
        let context = match planned {
            Some(plan) => plan,
            None => {
                let plan = PreparedContextPlan {
                    items: copy_items(native_history),
                    user_messages: Vec::new(),
                };
                assert(projection_views(plan.user_messages@) =~= Seq::empty());
                plan
            },
        };
        let settled: Vec<String> = Vec::new();
        assert(texts(settled@) =~= Seq::empty());
        InstalledCanonicalCommit { context, settled_spawn_call_ids: settled }
    }
}

/// Which kind of node the cursor is at.
#[derive(Clone, Copy, Debug, PartialEq, Eq, Structural)]
pub enum NodeKind {
    RootEpoch,
    Task,
}

/// A compaction that can be made.
#[derive(Debug, PartialEq, Eq)]
pub struct PreparedCompact {
    pub barrier: CompactBarrier,
    pub replacement: Vec<HistoryItem>,
}

proof fn lemma_seed_grows(seed: Seq<SeedModel>, item: SeedModel)
    ensures
        seeded_all(fresh(Seq::empty()), Seq::empty(), seed.push(item)) == match seeded_all(
            fresh(Seq::empty()),
            Seq::empty(),
            seed,
        ) {
            Err(error) => Err(error),
            Ok(before) => crate::replay::seeded(before, Seq::empty(), item),
        },
{
    assert(seed.push(item).drop_last() =~= seed);
}

proof fn lemma_replacement_all_items(items: Seq<HistoryModel>)
    ensures
        crate::replay::seeded_replacement(items.map_values(|i: HistoryModel| Some(i))) is Ok,
    decreases items.len(),
{
    let all = items.map_values(|i: HistoryModel| Some(i));
    if items.len() > 0 {
        lemma_replacement_all_items(items.drop_last());
        assert(all.drop_last() =~= items.drop_last().map_values(|i: HistoryModel| Some(i)));
    }
}

fn bind_items(items: &mut StringHashMap<HistoryItem>, ids: Vec<String>, projected: &Vec<HistoryItem>)
    ensures
        final(items)@.map_values(|i: HistoryItem| i@) == bound(
            old(items)@.map_values(|i: HistoryItem| i@),
            ids@,
            item_models(projected@),
            paired(ids@, item_models(projected@)),
        ),
{
    let ghost before = items@.map_values(|i: HistoryItem| i@);
    let ghost models = item_models(projected@);
    let mut k: usize = 0;
    while k < ids.len() && k < projected.len()
        invariant
            k <= ids@.len(),
            k <= projected@.len(),
            models == item_models(projected@),
            items@.map_values(|i: HistoryItem| i@) == bound(before, ids@, models, k as int),
        decreases ids@.len() - k,
    {
        let ghost earlier = items@.map_values(|i: HistoryItem| i@);
        let item = projected[k].copy();
        items.insert(ids[k].clone(), item);
        assert(items@.map_values(|i: HistoryItem| i@) =~= earlier.insert(
            ids@[k as int]@,
            models[k as int],
        ));
        k = k + 1;
    }
}

impl SpineCoordinator {
    pub open spec fn wf(&self) -> bool {
        coordinator_inv(self@)
    }

    /// A session that has seen nothing.
    pub fn new() -> (r: Self)
        ensures
            r.wf(),
            r@ == (CoordinatorModel {
                next_boundary: 0,
                source_items: Map::empty(),
                seed: Some(Seq::empty()),
                fault: None,
                usage: Seq::empty(),
                windows: Seq::empty(),
                user_messages: Seq::empty(),
            }),
    {
        let r = SpineCoordinator {
            next_boundary: 0,
            source_items: StringHashMap::new(),
            replay_seed: Some(Vec::new()),
            durability_fault: None,
            usage_samples: Vec::new(),
            context_window_samples: Vec::new(),
            user_messages: Vec::new(),
        };
        proof {
            assert(r@.source_items =~= Map::empty());
            assert(r@.seed->Some_0 =~= Seq::empty());
            assert(r@.user_messages =~= Seq::empty());
        }
        r
    }

    /// Refuses once durability is faulted.
    pub fn require_healthy(&self) -> (r: Result<(), CoordinatorError>)
        ensures
            match self@.fault {
                None => r is Ok,
                Some(reason) => r matches Err(error) && error@ == ErrorModel::DurabilityFaulted(
                    reason,
                ),
            },
    {
        if let Some(reason) = &self.durability_fault {
            return Err(CoordinatorError::DurabilityFaulted(reason.clone()));
        }
        Ok(())
    }

    /// Latches a durability fault.
    pub fn latch_durability_fault(&mut self, reason: String)
        requires
            old(self).wf(),
        ensures
            final(self).wf(),
            final(self)@ == faulted(old(self)@, reason@),
    {
        if self.durability_fault.is_none() {
            self.durability_fault = Some(reason);
        }
    }

    /// Takes in source items.
    pub fn observe_response_items(&mut self, items: &Vec<SeedSource>) -> (r: Result<
        ObservedItems,
        CoordinatorError,
    >)
        requires
            old(self).wf(),
        ensures
            final(self).wf(),
            match old(self)@.fault {
                Some(reason) => {
                    &&& r matches Err(error)
                    &&& error@ == ErrorModel::DurabilityFaulted(reason)
                    &&& final(self)@ == old(self)@
                },
                None => {
                    &&& r matches Ok(seen)
                    &&& final(self)@ == observed(old(self)@, source_models(items@))
                    &&& char_models(seen.characters@) == source_chars(
                        source_models(items@),
                        old(self)@.next_boundary,
                    )
                    &&& item_models(seen.projected@) == source_models(items@).map_values(
                        |s: (HistoryModel, bool)| item_source(s.0),
                    )
                },
            },
    {
        if let Err(error) = self.require_healthy() {
            return Err(error);
        }
        let ghost before = self@;
        let ghost models = source_models(items@);
        let mut characters: Vec<SpineChar> = Vec::new();
        let mut projected: Vec<HistoryItem> = Vec::new();
        let mut i: usize = 0;
        proof {
            assert(observed(before, models.take(0)).seed =~= before.seed);
            assert(before.seed matches Some(seed) ==> seed + source_seed(
                models.take(0),
                before.next_boundary,
            ) =~= seed);
            assert(char_models(characters@) =~= source_chars(models, before.next_boundary).take(0));
        }
        while i < items.len()
            invariant
                i <= items@.len(),
                models == source_models(items@),
                coordinator_inv(self@),
                self@ == observed(before, models.take(i as int)),
                char_models(characters@) =~= source_chars(models, before.next_boundary).take(
                    i as int,
                ),
                projected@.len() == i,
                forall|k: int|
                    0 <= k < i ==> (#[trigger] projected@[k])@ == item_source(models[k].0),
            decreases items@.len() - i,
        {
            let boundary = self.next_boundary;
            let ghost chars_before = char_models(characters@);
            self.next_boundary = boundary.saturating_add(1);
            let (character, source) = response_item_to_char_and_source(
                &items[i].item,
                items[i].contextual,
                boundary,
            );
            let mut seed = None;
            std::mem::swap(&mut seed, &mut self.replay_seed);
            if let Some(kept) = seed {
                let mut kept = kept;
                let ghost kept_before = seed_models(kept@);
                kept.push(
                    ReplaySeedItem::Source {
                        boundary,
                        item: Some(
                            SeedSource {
                                item: items[i].item.copy(),
                                contextual: items[i].contextual,
                            },
                        ),
                    },
                );
                proof {
                    let added = SeedModel::Source { boundary, item: Some(models[i as int]) };
                    assert(seed_models(kept@) =~= kept_before.push(added));
                    lemma_seed_grows(kept_before, added);
                    assert(models.take(i + 1).len() == i + 1);
                    assert(source_seed(models.take(i + 1), before.next_boundary) =~= source_seed(
                        models.take(i as int),
                        before.next_boundary,
                    ).push(added));
                    assert(seed_models(kept@) =~= before.seed->Some_0 + source_seed(
                        models.take(i + 1),
                        before.next_boundary,
                    ));
                }
                self.replay_seed = Some(kept);
            }
            characters.push(character);
            projected.push(source);
            proof {
                assert(char_models(characters@) =~= chars_before.push(
                    item_char(models[i as int].0, models[i as int].1, boundary),
                ));
                assert(self@.source_items == before.source_items);
            }
            i = i + 1;
        }
        proof {
            assert(models.take(i as int) =~= models);
            assert(item_models(projected@) =~= models.map_values(
                |s: (HistoryModel, bool)| item_source(s.0),
            ));
        }
        Ok(ObservedItems { characters, projected })
    }

    /// Notes which source cells the observed items are.
    pub fn bind_source(&mut self, ids: Vec<String>, projected: &Vec<HistoryItem>)
        requires
            old(self).wf(),
        ensures
            final(self).wf(),
            final(self)@ == (CoordinatorModel {
                source_items: bound(
                    old(self)@.source_items,
                    ids@,
                    item_models(projected@),
                    paired(ids@, item_models(projected@)),
                ),
                ..old(self)@
            }),
    {
        bind_items(&mut self.source_items, ids, projected);
    }

    /// Notes the context window at the place where the source stands.
    pub fn record_context_window(&mut self, model_context_window: i64)
        requires
            old(self).wf(),
        ensures
            final(self).wf(),
            final(self)@ == with_window(old(self)@, model_context_window),
    {
        let sample = ContextWindowSample { boundary: self.next_boundary, model_context_window };
        let n = self.context_window_samples.len();
        if n > 0 && self.context_window_samples[n - 1] == sample {
            return;
        }
        self.context_window_samples.push(sample);
    }

    /// Takes in a token count. The answer is whether the tree is to be
    /// published.
    pub fn observe_token_count(&mut self, info: Option<TokenInfo>) -> (r: bool)
        requires
            old(self).wf(),
        ensures
            final(self).wf(),
            r == (info is Some),
            final(self)@ == match info {
                Some(info) => counted(old(self)@, info),
                None => old(self)@,
            },
    {
        let info = match info {
            None => {
                return false;
            },
            Some(info) => info,
        };
        let boundary = self.next_boundary;
        let mut seed = None;
        std::mem::swap(&mut seed, &mut self.replay_seed);
        if let Some(kept) = seed {
            let mut kept = kept;
            let ghost kept_before = seed_models(kept@);
            kept.push(
                ReplaySeedItem::Usage {
                    boundary,
                    input_tokens: info.input_tokens,
                    model_context_window: info.model_context_window,
                },
            );
            proof {
                let added = SeedModel::Usage {
                    boundary,
                    input_tokens: info.input_tokens,
                    model_context_window: info.model_context_window,
                };
                assert(seed_models(kept@) =~= kept_before.push(added));
                lemma_seed_grows(kept_before, added);
            }
            self.replay_seed = Some(kept);
        }
        if let Some(window) = info.model_context_window {
            self.record_context_window(window);
        }
        self.usage_samples.push(
            TokenUsageSample { boundary, input_tokens: info.input_tokens },
        );
        true
    }

    /// Hands out what precedes the first recorded sampling attempt, once.
    pub fn take_replay_seed(&mut self) -> (r: Option<Vec<ReplaySeedItem>>)
        requires
            old(self).wf(),
        ensures
            final(self).wf(),
            seed_view(r) == old(self)@.seed,
            final(self)@ == (CoordinatorModel { seed: None, ..old(self)@ }),
    {
        let mut seed = None;
        std::mem::swap(&mut seed, &mut self.replay_seed);
        seed
    }

    /// Prepares a compaction of the runtime's epoch. Nothing changes until it
    /// is installed.
    pub fn prepare_compact(&self, thread: &str, epoch: u64, replacement: &Vec<HistoryItem>) -> (r:
        Result<PreparedCompact, CoordinatorError>)
        ensures
            match self@.fault {
                Some(reason) => r matches Err(error) && error@ == ErrorModel::DurabilityFaulted(
                    reason,
                ),
                None => if epoch == u64::MAX {
                    r matches Err(error) && error@ == ErrorModel::Identity(
                        "Spine context epoch is exhausted"@,
                    )
                } else {
                    r matches Ok(prepared) && prepared.barrier@ == (BarrierModel {
                        thread: thread@,
                        epoch,
                        next_epoch: (epoch + 1) as u64,
                        boundary: self@.next_boundary,
                        replacement_boundaries: replacement_places(
                            self@.next_boundary,
                            replacement@.len(),
                        ),
                    }) && item_models(prepared.replacement@) == item_models(replacement@)
                },
            },
    {
        if let Err(error) = self.require_healthy() {
            return Err(error);
        }
        if epoch == u64::MAX {
            return Err(
                CoordinatorError::Identity("Spine context epoch is exhausted".to_owned()),
            );
        }
        let barrier = CompactBarrier {
            thread: thread.to_owned(),
            epoch,
            next_epoch: epoch + 1,
            boundary: self.next_boundary,
            replacement_boundaries: replacement_boundaries(self.next_boundary, replacement.len()),
        };
        Ok(PreparedCompact { barrier, replacement: copy_items(replacement) })
    }

    /// Installs a compaction; `ids` are the source cells of the replacement.
    pub fn install_compact(&mut self, prepared: PreparedCompact, ids: Vec<String>)
        requires
            old(self).wf(),
        ensures
            final(self).wf(),
            final(self)@ == compaction_installed(
                old(self)@,
                prepared.barrier@,
                item_models(prepared.replacement@),
                ids@,
            ),
    {
        let PreparedCompact { barrier, replacement } = prepared;
        let ghost items = item_models(replacement@);
        let ghost barrier_model = barrier@;
        let next_boundary = boundary_after(barrier.boundary, &barrier.replacement_boundaries);
        let mut bindings: StringHashMap<HistoryItem> = StringHashMap::new();
        assert(bindings@.map_values(|i: HistoryItem| i@) =~= Map::empty());
        bind_items(&mut bindings, ids, &replacement);
        let mut seed = None;
        std::mem::swap(&mut seed, &mut self.replay_seed);
        if let Some(kept) = seed {
            let mut kept = kept;
            let ghost kept_before = seed_models(kept@);
            let mut seeded: Vec<Option<HistoryItem>> = Vec::new();
            let mut i: usize = 0;
            while i < replacement.len()
                invariant
                    i <= replacement@.len(),
                    seeded@.len() == i,
                    forall|k: int|
                        0 <= k < i ==> (#[trigger] seeded@[k] matches Some(item) && item@
                            == replacement@[k]@),
                decreases replacement@.len() - i,
            {
                seeded.push(Some(replacement[i].copy()));
                i = i + 1;
            }
            proof {
                assert(replacement_models(seeded@) =~= items.map_values(
                    |i: HistoryModel| Some(i),
                ));
            }
            kept.push(ReplaySeedItem::Compact { barrier, replacement: seeded });
            proof {
                let added = SeedModel::Compact {
                    barrier: barrier_model,
                    replacement: items.map_values(|i: HistoryModel| Some(i)),
                };
                assert(seed_models(kept@) =~= kept_before.push(added));
                lemma_seed_grows(kept_before, added);
                lemma_replacement_all_items(items);
            }
            self.replay_seed = Some(kept);
        }
        self.next_boundary = next_boundary;
        self.source_items = bindings;
    }

    /// Installs a replay; `ids` are the runtime's source cells. `planned` is the
    /// context that the replayed runtime plans, where it plans one.
    pub fn install_replay(
        &mut self,
        plan: ReplayPlan,
        ids: Vec<String>,
        usage_samples: Vec<TokenUsageSample>,
        planned: Option<PreparedContextPlan>,
        native_history: &Vec<HistoryItem>,
    ) -> (r: InstalledCanonicalCommit)
        requires
            old(self).wf(),
        ensures
            final(self).wf(),
            r@ == replayed_commit(planned, native_history@),
            final(self)@ == replay_installed(
                old(self)@,
                plan@,
                ids@,
                usage_samples@,
                r@.user_messages,
            ),
    {
        let mut bindings: StringHashMap<HistoryItem> = StringHashMap::new();
        assert(bindings@.map_values(|i: HistoryItem| i@) =~= Map::empty());
        bind_items(&mut bindings, ids, &plan.projected);
        let installed = InstalledCanonicalCommit::replayed(planned, native_history);
        self.replay_seed = None;
        self.next_boundary = plan.next_boundary;
        self.source_items = bindings;
        self.usage_samples = usage_samples;
        self.context_window_samples = plan.context_window_samples;
        self.user_messages = copy_user_messages(&installed.context.user_messages);
        installed
    }

    /// Takes over what the user said from a published commit.
    pub fn publish_user_messages(
        &mut self,
        user_messages: Vec<SpinetreeUserMessageProjectionEntry>,
    )
        requires
            old(self).wf(),
        ensures
            final(self).wf(),
            final(self)@ == (CoordinatorModel {
                user_messages: projection_views(user_messages@),
                ..old(self)@
            }),
    {
        self.user_messages = user_messages;
    }

    /// Whether a control may be used, given what the cursor is at (nothing
    /// where it is missing from the tree).
    pub fn validate_control(&self, tool: SpineTool, cursor: Option<NodeKind>) -> (r: Result<
        (),
        String,
    >)
        ensures
            match self@.fault {
                Some(reason) => r matches Err(message) && message@
                    == "Spine durability is faulted: "@ + reason,
                None => if tool == SpineTool::Close || tool == SpineTool::Next {
                    match cursor {
                        None => r matches Err(message) && message@
                            == "Spine cursor is missing from the derived tree"@,
                        Some(NodeKind::RootEpoch) => r matches Err(message) && message@
                            == "no open Spine node is available to close"@,
                        Some(NodeKind::Task) => r is Ok,
                    }
                } else {
                    r is Ok
                },
            },
    {
        if let Err(error) = self.require_healthy() {
            return Err(error.message());
        }
        if tool == SpineTool::Close || tool == SpineTool::Next {
            match cursor {
                None => {
                    return Err("Spine cursor is missing from the derived tree".to_owned());
                },
                Some(NodeKind::RootEpoch) => {
                    return Err("no open Spine node is available to close".to_owned());
                },
                Some(NodeKind::Task) => {},
            }
        }
        Ok(())
    }
}

/// The token count that a commit records: none where it is unknown or negative.
pub fn durable_input_tokens(input_tokens: Option<i64>) -> (r: Option<u64>)
    ensures
        r == match input_tokens {
            Some(tokens) => if tokens >= 0 {
                Some(tokens as u64)
            } else {
                None
            },
            None => None,
        },
{
    match input_tokens {
        Some(tokens) => {
            if tokens >= 0 {
                Some(tokens as u64)
            } else {
                None
            }
        },
        None => None,
    }
}

/// An execution that a commit records.
pub struct CommittedExecution {
    pub is_spawn: bool,
    pub execution_ref: String,
}

/// The calls that spawned branches.
pub open spec fn spawn_calls(executions: Seq<CommittedExecution>) -> Seq<Seq<char>>
    decreases executions.len(),
{
    if executions.len() == 0 {
        Seq::empty()
    } else if executions.last().is_spawn {
        spawn_calls(executions.drop_last()).push(executions.last().execution_ref@)
    } else {
        spawn_calls(executions.drop_last())
    }
}

/// The spawn calls that a commit settles, in order.
pub fn settled_spawn_call_ids(executions: &Vec<CommittedExecution>) -> (r: Vec<String>)
    ensures
        texts(r@) == spawn_calls(executions@),
{
    let mut calls: Vec<String> = Vec::new();
    let mut i: usize = 0;
    proof {
        assert(executions@.take(0) =~= Seq::empty());
        assert(texts(calls@) =~= Seq::empty());
    }
    while i < executions.len()
        invariant
            i <= executions@.len(),
            texts(calls@) == spawn_calls(executions@.take(i as int)),
        decreases executions@.len() - i,
    {
        proof {
            let upto = executions@.take(i + 1);
            assert(upto.drop_last() =~= executions@.take(i as int));
            assert(upto.last() == executions@[i as int]);
        }
        if executions[i].is_spawn {
            let ghost before = texts(calls@);
            calls.push(executions[i].execution_ref.clone());
            assert(texts(calls@) =~= before.push(
                executions@[i as int].execution_ref@,
            ));
        }
        i = i + 1;
    }
    assert(executions@.take(i as int) =~= executions@);
    calls
}

/// A durability fault stays: no later one takes its place.
pub proof fn a_durability_fault_is_sticky(m: CoordinatorModel, first: Seq<char>, later: Seq<char>)
    ensures
        faulted(m, first).fault is Some,
        faulted(faulted(m, first), later) == faulted(m, first),
{
}

/// A compaction leaves what the user said, and what was counted, as it was.
pub proof fn compaction_keeps_the_session(
    m: CoordinatorModel,
    barrier: BarrierModel,
    replacement: Seq<HistoryModel>,
    ids: Seq<String>,
)
    ensures
        compaction_installed(m, barrier, replacement, ids).user_messages == m.user_messages,
        compaction_installed(m, barrier, replacement, ids).usage == m.usage,
        compaction_installed(m, barrier, replacement, ids).windows == m.windows,
        compaction_installed(m, barrier, replacement, ids).fault == m.fault,
{
}

} // verus!
