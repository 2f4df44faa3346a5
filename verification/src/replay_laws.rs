//! A session that is resumed from its rollout is told what it told before.

use vstd::prelude::*;

verus! {

use crate::archive::{archived_records, decoded, sampling_thread, ErrorModel, SPINE_ROLLOUT_VERSION};
use crate::coordinator::{
    advanced, bound, compaction_installed, counted, observed, paired, replay_installed, seed_view,
    source_chars, source_seed, with_window, CoordinatorModel, TokenUsageSample,
};
use crate::history::{
    item_char, item_models, item_source, item_text, CharModel, ContentModel, HistoryBodyModel,
    HistoryItem, HistoryModel,
};
use crate::history_laws::a_message_says_its_texts;
use crate::replay::{
    compacted, first_sampling, fresh, next_place, recorded, replacement_items, replacement_places,
    replay_of, replayed, replayed_all, seed_models, seed_of, seeded, seeded_all, seeded_item,
    seeded_replacement, sourced, BarrierModel, InputModel, PlanModel, SeedModel,
};
use crate::rollout_source::{
    effective, is_kept, numbered, source_count, ArchiveRecord, ArchivedRecord, Numbered,
    RolloutEntry, TokenInfo,
};
use crate::sampling::SpineSamplingStartedItem;

/// A session with its sampling runtime and the rollout that it writes.
#[verifier::ext_equal]
pub ghost struct LiveSession {
    pub coordinator: CoordinatorModel,
    /// The runtime's epoch.
    pub epoch: u64,
    /// What the runtime was told, in order.
    pub told: Seq<InputModel>,
    /// The items that the source cells of the epoch stand for.
    pub projected: Seq<HistoryModel>,
    /// What was persisted, in order.
    pub rollout: Seq<RolloutEntry>,
    /// The records of sampling attempts among it.
    pub records: Seq<ArchiveRecord>,
}

/// Something that happens to a session.
#[allow(inconsistent_fields)]
pub ghost enum LiveStep {
    /// Items of the conversation are observed and persisted; the runtime makes
    /// source cells of them.
    Observed { entries: Seq<RolloutEntry>, ids: Seq<String> },
    /// A sampling attempt starts, and its start is persisted.
    Started { item: SpineSamplingStartedItem, record: ArchiveRecord },
    /// The context window is noted when an attempt ends.
    Ending { model_context_window: i64 },
    /// An attempt is committed, and its commit is persisted. The context that
    /// it brings holds messages of the user.
    Committed { record: ArchiveRecord, user_messages: Seq<(u64, Seq<char>)> },
    /// Tokens are counted, and the count is persisted.
    Counted { info: Option<TokenInfo> },
    /// The history is compacted in the runtime's thread and epoch, and the
    /// compaction is persisted; the runtime makes source cells of the
    /// replacement.
    Compacted {
        thread: Seq<char>,
        message: String,
        replacement: Vec<HistoryItem>,
        ids: Seq<String>,
    },
    /// Something else is persisted.
    Noted,
    /// The session ends, and another one is resumed from the rollout.
    Resumed {
        ids: Seq<String>,
        usage: Seq<TokenUsageSample>,
        user_messages: Seq<(u64, Seq<char>)>,
    },
}

/// A session that has seen nothing.
pub open spec fn unseen() -> CoordinatorModel {
    CoordinatorModel {
        next_boundary: 0,
        source_items: Map::empty(),
        seed: Some(Seq::empty()),
        fault: None,
        usage: Seq::empty(),
        windows: Seq::empty(),
        user_messages: Seq::empty(),
    }
}

/// A session before anything happened to it.
pub open spec fn begun() -> LiveSession {
    LiveSession {
        coordinator: unseen(),
        epoch: 0,
        told: Seq::empty(),
        projected: Seq::empty(),
        rollout: Seq::empty(),
        records: Seq::empty(),
    }
}

/// The item of a source entry, with the host's classification.
pub open spec fn source_of(entry: RolloutEntry) -> Option<(HistoryModel, bool)> {
    match entry {
        RolloutEntry::ResponseItem { item, contextual, .. } => Some((item@, contextual)),
        RolloutEntry::InterAgentCommunication { item, contextual } => Some((item@, contextual)),
        _ => None,
    }
}

/// The items of source entries.
pub open spec fn sources(entries: Seq<RolloutEntry>) -> Seq<(HistoryModel, bool)> {
    entries.map_values(|e: RolloutEntry| source_of(e)->Some_0)
}

/// What the runtime is told of source characters.
pub open spec fn source_inputs(characters: Seq<CharModel>) -> Seq<InputModel> {
    characters.map_values(|c: CharModel| InputModel::Source(c))
}

/// What source items stand for.
pub open spec fn source_items(items: Seq<(HistoryModel, bool)>) -> Seq<HistoryModel> {
    items.map_values(|s: (HistoryModel, bool)| item_source(s.0))
}

/// The thread that a replay attributes compactions to: that of the last commit,
/// or `first` where there is none.
pub open spec fn barrier_thread(first: Seq<char>, records: Seq<ArchiveRecord>) -> Seq<char>
    decreases records.len(),
{
    if records.len() == 0 {
        first
    } else {
        match records.last() {
            ArchiveRecord::SamplingCommit { thread, .. } => thread@,
            _ => barrier_thread(first, records.drop_last()),
        }
    }
}

/// The records in effect of a session's rollout.
pub open spec fn in_effect(s: LiveSession) -> Seq<Numbered> {
    effective(numbered(s.rollout))
}

/// The replay of a session's rollout, in the thread of its first attempt.
pub open spec fn replay_now(s: LiveSession) -> Result<PlanModel, ErrorModel> {
    replay_of(in_effect(s), sampling_thread(s.records)->Some_0, s.records)
}

/// What a compaction hands to the runtime.
pub open spec fn barrier_of(
    s: LiveSession,
    thread: Seq<char>,
    replacement: Seq<HistoryItem>,
) -> BarrierModel {
    BarrierModel {
        thread,
        epoch: s.epoch,
        next_epoch: (s.epoch + 1) as u64,
        boundary: s.coordinator.next_boundary,
        replacement_boundaries: replacement_places(s.coordinator.next_boundary, replacement.len()),
    }
}

/// Whether a step can happen. Only source items are observed; a start records
/// what precedes the first one; nothing is committed that was not started; an
/// epoch is left for a compaction, and once an attempt was recorded, the
/// compaction's thread is that of the last commit, or of the first attempt where
/// nothing was committed; and only a rollout with an attempt is resumed from
/// its records.
pub open spec fn can_happen(s: LiveSession, step: LiveStep) -> bool {
    match step {
        LiveStep::Observed { entries, .. } => forall|i: int|
            0 <= i < entries.len() ==> source_of(#[trigger] entries[i]) is Some,
        LiveStep::Started { item, record } => {
            &&& record is SamplingStarted
            &&& item.record == (ArchivedRecord {
                version: SPINE_ROLLOUT_VERSION,
                payload: Ok(record),
            })
            &&& seed_view(item.replay_seed) == s.coordinator.seed
        },
        LiveStep::Committed { record, .. } => record is SamplingCommit && s.records.len() > 0,
        LiveStep::Compacted { thread, .. } => s.epoch < u64::MAX && (sampling_thread(
            s.records,
        ) matches Some(first) ==> thread == barrier_thread(first, s.records)),
        LiveStep::Resumed { .. } => sampling_thread(s.records) is Some,
        _ => true,
    }
}

/// The entry that a recorded start is persisted as.
pub open spec fn started_entry(item: SpineSamplingStartedItem) -> RolloutEntry {
    RolloutEntry::SamplingStarted {
        record: item.record,
        sdk_config: item.sdk_config,
        replay_seed: match item.replay_seed {
            Some(seed) => Some(Ok(seed)),
            None => None,
        },
    }
}

/// The entry that a commit is persisted as.
pub open spec fn commit_entry(record: ArchiveRecord) -> RolloutEntry {
    RolloutEntry::Transition {
        record: ArchivedRecord { version: SPINE_ROLLOUT_VERSION, payload: Ok(record) },
    }
}

/// A session after a step.
pub open spec fn happened(s: LiveSession, step: LiveStep) -> LiveSession {
    let c = s.coordinator;
    match step {
        LiveStep::Observed { entries, ids } => {
            let items = sources(entries);
            let added = source_items(items);
            LiveSession {
                coordinator: CoordinatorModel {
                    source_items: bound(c.source_items, ids, added, paired(ids, added)),
                    ..observed(c, items)
                },
                told: s.told + source_inputs(source_chars(items, c.next_boundary)),
                projected: s.projected + added,
                rollout: s.rollout + entries,
                ..s
            }
        },
        LiveStep::Started { item, record } => LiveSession {
            coordinator: CoordinatorModel { seed: None, ..c },
            told: s.told.push(InputModel::Archive(record)),
            rollout: s.rollout.push(started_entry(item)),
            records: s.records.push(record),
            ..s
        },
        LiveStep::Ending { model_context_window } => LiveSession {
            coordinator: with_window(c, model_context_window),
            ..s
        },
        LiveStep::Committed { record, user_messages } => LiveSession {
            coordinator: CoordinatorModel { user_messages, ..c },
            told: s.told.push(InputModel::Archive(record)),
            rollout: s.rollout.push(commit_entry(record)),
            records: s.records.push(record),
            ..s
        },
        LiveStep::Counted { info } => LiveSession {
            coordinator: match info {
                Some(info) => counted(c, info),
                None => c,
            },
            told: match info {
                Some(info) => s.told.push(
                    InputModel::Usage {
                        boundary: c.next_boundary,
                        input_tokens: info.input_tokens,
                    },
                ),
                None => s.told,
            },
            rollout: s.rollout.push(RolloutEntry::TokenCount { info }),
            ..s
        },
        LiveStep::Compacted { thread, message, replacement, ids } => {
            let barrier = barrier_of(s, thread, replacement@);
            LiveSession {
                coordinator: compaction_installed(c, barrier, item_models(replacement@), ids),
                epoch: barrier.next_epoch,
                told: s.told.push(InputModel::Compact(barrier)),
                projected: item_models(replacement@),
                rollout: s.rollout.push(
                    RolloutEntry::Compacted { message, replacement_history: Some(replacement) },
                ),
                ..s
            }
        },
        LiveStep::Noted => LiveSession { rollout: s.rollout.push(RolloutEntry::Other), ..s },
        LiveStep::Resumed { ids, usage, user_messages } => {
            let plan = replay_now(s)->Ok_0;
            LiveSession {
                coordinator: replay_installed(unseen(), plan, ids, usage, user_messages),
                epoch: plan.epoch,
                told: plan.inputs,
                projected: plan.projected,
                ..s
            }
        },
    }
}

/// A session after some steps.
pub open spec fn lived(s: LiveSession, steps: Seq<LiveStep>) -> LiveSession
    decreases steps.len(),
{
    if steps.len() == 0 {
        s
    } else {
        happened(lived(s, steps.drop_last()), steps.last())
    }
}

/// Whether steps can happen one after the other.
pub open spec fn can_be_lived(s: LiveSession, steps: Seq<LiveStep>) -> bool
    decreases steps.len(),
{
    steps.len() > 0 ==> can_be_lived(s, steps.drop_last()) && can_happen(
        lived(s, steps.drop_last()),
        steps.last(),
    )
}

/// What precedes the first recorded attempt.
pub open spec fn preceding(list: Seq<Numbered>) -> Seq<Numbered> {
    list.take(first_sampling(list))
}

/// Whether every item stands for itself: of the items that are persisted with
/// the identity of an opaque one, the last is that item.
pub open spec fn identified(list: Seq<Numbered>) -> bool {
    forall|i: int|
        0 <= i < list.len() ==> (source_of((#[trigger] list[i]).1) matches Some(source)
            ==> seeded_item(list, source.0) == item_source(source.0))
}

/// Whether a seed's items were all persisted.
spec fn seed_persisted(seed: Seq<SeedModel>, list: Seq<Numbered>) -> bool {
    forall|k: int|
        0 <= k < seed.len() ==> (#[trigger] seed[k] matches SeedModel::Source {
            item: Some(source),
            ..
        } ==> was_persisted(list, source.0))
}

spec fn was_persisted(list: Seq<Numbered>, item: HistoryModel) -> bool {
    exists|i: int|
        0 <= i < list.len() && (source_of((#[trigger] list[i]).1) matches Some(source)
            && source.0 == item)
}

/// Whether a seed's items all stand for themselves.
spec fn stand_for_themselves(list: Seq<Numbered>, seed: Seq<SeedModel>) -> bool {
    forall|k: int|
        0 <= k < seed.len() ==> (#[trigger] seed[k] matches SeedModel::Source {
            item: Some(source),
            ..
        } ==> seeded_item(list, source.0) == item_source(source.0))
}

/// The plan of a seed on its own.
spec fn seed_plan(seed: Seq<SeedModel>) -> Result<PlanModel, ErrorModel> {
    seeded_all(fresh(Seq::empty()), Seq::empty(), seed)
}

/// Whether a plan leads to where a session stands.
spec fn leads_to(plan: Result<PlanModel, ErrorModel>, s: LiveSession) -> bool {
    plan matches Ok(p) && p.inputs == s.told && p.next_boundary == s.coordinator.next_boundary
        && p.epoch == s.epoch && p.used == s.records.len()
}

/// What every session keeps: its seed, until an attempt is recorded, and its
/// rollout from then on, lead to where it stands.
spec fn faithful(s: LiveSession) -> bool {
    let list = in_effect(s);
    &&& archived_records(list) == Ok::<Seq<ArchiveRecord>, ErrorModel>(s.records)
    &&& if s.records.len() == 0 {
        &&& first_sampling(list) == list.len()
        &&& s.coordinator.seed matches Some(seed) && seed_persisted(seed, list) && leads_to(
            seed_plan(seed),
            s,
        ) && seed_plan(seed)->Ok_0.projected == s.projected
    } else {
        &&& s.coordinator.seed is None
        &&& first_sampling(list) < list.len()
        &&& sampling_thread(s.records) matches Some(first) && leads_to(replay_now(s), s)
            && replay_now(s)->Ok_0.thread == barrier_thread(first, s.records)
        &&& identified(preceding(list)) ==> replay_now(s)->Ok_0.projected == s.projected
    }
}

proof fn lemma_in_effect(rollout: Seq<RolloutEntry>, entry: RolloutEntry)
    requires
        !(entry is ThreadRolledBack),
    ensures
        ({
            let before = effective(numbered(rollout));
            let after = effective(numbered(rollout.push(entry)));
            after == if is_kept(entry) {
                before.push((source_count(rollout) as usize, entry))
            } else {
                before
            }
        }),
{
    let longer = rollout.push(entry);
    assert(longer.drop_last() =~= rollout);
    let all = numbered(longer);
    assert(all.drop_last() =~= numbered(rollout));
    assert(all.last() == (source_count(rollout) as usize, entry));
}

proof fn lemma_first_sampling_push(list: Seq<Numbered>, entry: Numbered)
    ensures
        first_sampling(list) <= list.len(),
        first_sampling(list) < list.len() ==> first_sampling(list.push(entry)) == first_sampling(
            list,
        ),
        first_sampling(list) == list.len() ==> first_sampling(list.push(entry)) == if entry.1
            is SamplingStarted {
            list.len()
        } else {
            list.len() + 1
        },
        first_sampling(list) >= 0,
    decreases list.len(),
{
    assert(list.push(entry).drop_last() =~= list);
    if list.len() > 0 {
        lemma_first_sampling_push(list.drop_last(), list.last());
        assert(list.drop_last().push(list.last()) =~= list);
    }
}

proof fn lemma_preceding_push(list: Seq<Numbered>, entry: Numbered)
    requires
        first_sampling(list) < list.len(),
    ensures
        preceding(list.push(entry)) == preceding(list),
{
    lemma_first_sampling_push(list, entry);
    assert(preceding(list.push(entry)) =~= preceding(list));
}

/// A replay of one more entry goes on from the replay of those before it.
proof fn lemma_replay_push(
    list: Seq<Numbered>,
    entry: Numbered,
    thread: Seq<char>,
    records: Seq<ArchiveRecord>,
)
    requires
        first_sampling(list) < list.len(),
    ensures
        replay_of(list.push(entry), thread, records) == match replay_of(list, thread, records) {
            Err(error) => Err(error),
            Ok(before) => replayed(before, entry.1, records),
        },
{
    let longer = list.push(entry);
    let at = first_sampling(list);
    lemma_first_sampling_push(list, entry);
    assert(longer[at] == list[at]);
    assert(longer.take(at) =~= list.take(at));
    assert(longer.skip(at).drop_last() =~= list.skip(at));
    assert(longer.skip(at).last() == entry);
    assert(longer.drop_last() =~= list);
    assert(longer.last() == entry);
}

/// Records that follow those that a replay uses change nothing.
proof fn lemma_more_records(
    m: PlanModel,
    list: Seq<Numbered>,
    records: Seq<ArchiveRecord>,
    record: ArchiveRecord,
)
    requires
        m.used >= 0,
        replayed_all(m, list, records) is Ok,
    ensures
        replayed_all(m, list, records.push(record)) == replayed_all(m, list, records),
        replayed_all(m, list, records)->Ok_0.used >= 0,
    decreases list.len(),
{
    if list.len() > 0 {
        lemma_more_records(m, list.drop_last(), records, record);
        let before = replayed_all(m, list.drop_last(), records)->Ok_0;
        let entry = list.last().1;
        if before.used < records.len() {
            assert(records.push(record)[before.used] == records[before.used]);
        }
    }
}

/// What a seed tells does not depend on the thread, and what its items stand
/// for is what they stood for where none was persisted otherwise.
proof fn lemma_seed_alone(thread: Seq<char>, list: Seq<Numbered>, seed: Seq<SeedModel>)
    requires
        seed_plan(seed) is Ok,
    ensures
        seeded_all(fresh(thread), list, seed) matches Ok(plan) && plan == (PlanModel {
            thread,
            projected: plan.projected,
            ..seed_plan(seed)->Ok_0
        }),
        stand_for_themselves(list, seed) ==> seeded_all(fresh(thread), list, seed)->Ok_0.projected
            == seed_plan(seed)->Ok_0.projected,
        seed_plan(seed)->Ok_0.used == 0,
    decreases seed.len(),
{
    if seed.len() > 0 {
        let before = seed.drop_last();
        lemma_seed_alone(thread, list, before);
        assert(seed[seed.len() - 1] == seed.last());
        if stand_for_themselves(list, seed) {
            assert forall|k: int| 0 <= k < before.len() implies (#[trigger] before[k]
                matches SeedModel::Source { item: Some(source), .. } ==> seeded_item(list, source.0)
                == item_source(source.0)) by {
                assert(before[k] == seed[k]);
            }
            assert(stand_for_themselves(list, before));
        }
        if let SeedModel::Source { item: Some(source), .. } = seed.last() {
            lemma_nothing_persisted(source.0);
        }
    } else {
        assert(fresh(thread) == PlanModel { thread, ..fresh(Seq::empty()) });
    }
}

proof fn lemma_nothing_persisted(item: HistoryModel)
    ensures
        seeded_item(Seq::empty(), item) == item_source(item),
{
}

proof fn lemma_was_persisted_push(list: Seq<Numbered>, entry: Numbered, item: HistoryModel)
    requires
        was_persisted(list, item) || (source_of(entry.1) matches Some(source) && source.0 == item),
    ensures
        was_persisted(list.push(entry), item),
{
    let longer = list.push(entry);
    if was_persisted(list, item) {
        let i = choose|i: int|
            0 <= i < list.len() && (source_of((#[trigger] list[i]).1) matches Some(source)
                && source.0 == item);
        assert(longer[i] == list[i]);
    } else {
        assert(longer[list.len() as int] == entry);
    }
}

proof fn lemma_seed_persisted_push(seed: Seq<SeedModel>, list: Seq<Numbered>, entry: Numbered)
    requires
        seed_persisted(seed, list),
    ensures
        seed_persisted(seed, list.push(entry)),
{
    assert forall|k: int| 0 <= k < seed.len() implies (#[trigger] seed[k]
        matches SeedModel::Source { item: Some(source), .. } ==> was_persisted(
        list.push(entry),
        source.0,
    )) by {
        if let SeedModel::Source { item: Some(source), .. } = seed[k] {
            lemma_was_persisted_push(list, entry, source.0);
        }
    }
}

/// A whole replacement comes back from a seed.
proof fn lemma_whole_replacement(items: Seq<HistoryModel>)
    ensures
        seeded_replacement(items.map_values(|i: HistoryModel| Some(i))) == Ok::<
            Seq<HistoryModel>,
            ErrorModel,
        >(items),
    decreases items.len(),
{
    let all = items.map_values(|i: HistoryModel| Some(i));
    if items.len() > 0 {
        lemma_whole_replacement(items.drop_last());
        assert(all.drop_last() =~= items.drop_last().map_values(|i: HistoryModel| Some(i)));
        assert(items.drop_last().push(items.last()) =~= items);
    } else {
        assert(items =~= Seq::empty());
    }
}

/// A replay takes in an entry that is not a record.
proof fn lemma_entry(s: LiveSession, entry: RolloutEntry, t: LiveSession)
    requires
        faithful(s),
        s.records.len() > 0,
        is_kept(entry),
        !(entry is SamplingStarted || entry is Transition),
        t.rollout == s.rollout.push(entry),
        t.records == s.records,
        t.coordinator.seed is None,
        leads_to(replayed(replay_now(s)->Ok_0, entry, s.records), t),
        replayed(replay_now(s)->Ok_0, entry, s.records)->Ok_0.thread == replay_now(s)->Ok_0.thread,
        replay_now(s)->Ok_0.projected == s.projected ==> replayed(
            replay_now(s)->Ok_0,
            entry,
            s.records,
        )->Ok_0.projected == t.projected,
    ensures
        faithful(t),
{
    let list = in_effect(s);
    lemma_in_effect(s.rollout, entry);
    let numbered_entry = (source_count(s.rollout) as usize, entry);
    assert(in_effect(t) == list.push(numbered_entry));
    lemma_preceding_push(list, numbered_entry);
    assert(in_effect(t).drop_last() =~= list);
    assert(in_effect(t).last() == numbered_entry);
    lemma_first_sampling_push(list, numbered_entry);
    lemma_replay_push(list, numbered_entry, sampling_thread(s.records)->Some_0, s.records);
}

/// Before anything is recorded, an entry that is not a record goes with what the
/// seed takes in.
proof fn lemma_seed_entry(
    s: LiveSession,
    entry: RolloutEntry,
    added: SeedModel,
    t: LiveSession,
)
    requires
        faithful(s),
        s.records.len() == 0,
        is_kept(entry),
        !(entry is SamplingStarted || entry is Transition),
        t.rollout == s.rollout.push(entry),
        t.records == s.records,
        t.coordinator.seed == Some(s.coordinator.seed->Some_0.push(added)),
        added matches SeedModel::Source { item: Some(source), .. } ==> (source_of(
            entry,
        ) matches Some(persisted) && persisted.0 == source.0),
        leads_to(seeded(seed_plan(s.coordinator.seed->Some_0)->Ok_0, Seq::empty(), added), t),
        seeded(
            seed_plan(s.coordinator.seed->Some_0)->Ok_0,
            Seq::empty(),
            added,
        )->Ok_0.projected == t.projected,
    ensures
        faithful(t),
{
    let list = in_effect(s);
    let seed = s.coordinator.seed->Some_0;
    lemma_in_effect(s.rollout, entry);
    let numbered_entry = (source_count(s.rollout) as usize, entry);
    assert(in_effect(t).drop_last() =~= list);
    assert(in_effect(t).last() == numbered_entry);
    lemma_first_sampling_push(list, numbered_entry);
    assert(seed.push(added).drop_last() =~= seed);
    assert(in_effect(t) == list.push(numbered_entry));
    lemma_seed_persisted_push(seed, list, numbered_entry);
    assert forall|k: int| 0 <= k < seed.push(added).len() implies (#[trigger] seed.push(added)[k]
        matches SeedModel::Source { item: Some(source), .. } ==> was_persisted(
        in_effect(t),
        source.0,
    )) by {
        if k < seed.len() {
            assert(seed.push(added)[k] == seed[k]);
        } else if let SeedModel::Source { item: Some(source), .. } = added {
            lemma_was_persisted_push(list, numbered_entry, source.0);
        }
    }
}

/// The session after one source entry.
spec fn with_source(s: LiveSession, entry: RolloutEntry) -> LiveSession {
    let c = s.coordinator;
    let item = source_of(entry)->Some_0;
    LiveSession {
        coordinator: CoordinatorModel {
            next_boundary: next_place(c.next_boundary),
            seed: match c.seed {
                Some(seed) => Some(
                    seed.push(SeedModel::Source { boundary: c.next_boundary, item: Some(item) }),
                ),
                None => None,
            },
            ..c
        },
        told: s.told.push(InputModel::Source(item_char(item.0, item.1, c.next_boundary))),
        projected: s.projected.push(item_source(item.0)),
        rollout: s.rollout.push(entry),
        ..s
    }
}

proof fn lemma_source(s: LiveSession, entry: RolloutEntry)
    requires
        faithful(s),
        source_of(entry) is Some,
    ensures
        faithful(with_source(s, entry)),
{
    let t = with_source(s, entry);
    let item = source_of(entry)->Some_0;
    if s.records.len() == 0 {
        let added = SeedModel::Source {
            boundary: s.coordinator.next_boundary,
            item: Some(item),
        };
        lemma_nothing_persisted(item.0);
        lemma_seed_entry(s, entry, added, t);
    } else {
        let plan = replay_now(s)->Ok_0;
        assert(replayed(plan, entry, s.records) == Ok::<PlanModel, ErrorModel>(
            sourced(plan, item.0, item.1),
        ));
        lemma_entry(s, entry, t);
    }
}

/// The session after the first `n` of some source entries.
spec fn partly_observed(s: LiveSession, entries: Seq<RolloutEntry>, n: int) -> LiveSession {
    let c = s.coordinator;
    let items = sources(entries.take(n));
    LiveSession {
        coordinator: observed(c, items),
        told: s.told + source_inputs(source_chars(items, c.next_boundary)),
        projected: s.projected + source_items(items),
        rollout: s.rollout + entries.take(n),
        ..s
    }
}

proof fn lemma_observed(s: LiveSession, entries: Seq<RolloutEntry>, n: int)
    requires
        faithful(s),
        0 <= n <= entries.len(),
        forall|i: int| 0 <= i < entries.len() ==> source_of(#[trigger] entries[i]) is Some,
    ensures
        faithful(partly_observed(s, entries, n)),
    decreases n,
{
    let c = s.coordinator;
    let t = partly_observed(s, entries, n);
    let items = sources(entries.take(n));
    if n == 0 {
        assert(t.told =~= s.told);
        assert(t.projected =~= s.projected);
        assert(t.rollout =~= s.rollout);
        if let Some(seed) = c.seed {
            assert(seed + source_seed(items, c.next_boundary) =~= seed);
        }
        assert(t =~= s);
    } else {
        lemma_observed(s, entries, n - 1);
        let before = partly_observed(s, entries, n - 1);
        let earlier = sources(entries.take(n - 1));
        let entry = entries[n - 1];
        assert(source_of(entry) is Some);
        lemma_source(before, entry);
        let after = with_source(before, entry);
        assert(items.len() == n && earlier.len() == n - 1);
        assert(items =~= earlier.push(source_of(entry)->Some_0));
        assert(before.coordinator.next_boundary == advanced(c.next_boundary, (n - 1) as nat));
        assert(t.told =~= after.told);
        assert(t.projected =~= after.projected);
        assert(t.rollout =~= after.rollout);
        if let Some(seed) = c.seed {
            assert(seed + source_seed(items, c.next_boundary) =~= (seed + source_seed(
                earlier,
                c.next_boundary,
            )).push(
                SeedModel::Source {
                    boundary: before.coordinator.next_boundary,
                    item: Some(source_of(entry)->Some_0),
                },
            ));
        }
        assert(t.coordinator =~= after.coordinator);
        assert(t =~= after);
    }
}

/// The first attempt takes the seed along, and is the first record.
proof fn lemma_first_start(s: LiveSession, item: SpineSamplingStartedItem, record: ArchiveRecord)
    requires
        faithful(s),
        s.records.len() == 0,
        can_happen(s, LiveStep::Started { item, record }),
    ensures
        faithful(happened(s, LiveStep::Started { item, record })),
{
    let t = happened(s, LiveStep::Started { item, record });
    let list = in_effect(s);
    let entry = started_entry(item);
    let seed = s.coordinator.seed->Some_0;
    lemma_in_effect(s.rollout, entry);
    let numbered_entry = (source_count(s.rollout) as usize, entry);
    assert(in_effect(t) == list.push(numbered_entry));
    assert(in_effect(t).drop_last() =~= list);
    lemma_first_sampling_push(list, numbered_entry);
    assert(s.records =~= Seq::empty());
    assert(t.records =~= seq![record]);
    assert(t.records.drop_last() =~= Seq::empty());
    reveal_with_fuel(sampling_thread, 2);
    reveal_with_fuel(barrier_thread, 2);
    let first = sampling_thread(t.records)->Some_0;
    let at = first_sampling(in_effect(t));
    assert(at == list.len());
    assert(in_effect(t).take(at) =~= list);
    if identified(list) {
        assert forall|k: int| 0 <= k < seed.len() implies (#[trigger] seed[k]
            matches SeedModel::Source { item: Some(source), .. } ==> seeded_item(list, source.0)
            == item_source(source.0)) by {
            if let SeedModel::Source { item: Some(source), .. } = seed[k] {
                let i = choose|i: int|
                    0 <= i < list.len() && (source_of((#[trigger] list[i]).1) matches Some(found)
                        && found.0 == source.0);
                assert(source_of(list[i].1)->Some_0.0 == source.0);
            }
        }
        assert(stand_for_themselves(list, seed));
    }
    lemma_seed_alone(first, list, seed);
    let start = seeded_all(fresh(first), list, seed)->Ok_0;
    let tail = in_effect(t).skip(at);
    assert(tail.drop_last() =~= Seq::<Numbered>::empty());
    assert(tail.last() == numbered_entry);
    assert(replayed_all(start, tail.drop_last(), t.records) == Ok::<PlanModel, ErrorModel>(start));
    assert(decoded(entry) == Ok::<Option<ArchiveRecord>, ErrorModel>(Some(record)));
    assert(replayed_all(start, tail, t.records) == recorded(start, t.records));
    assert(archived_records(in_effect(t))->Ok_0 =~= t.records);
}

/// A later start, and a commit, is one more record.
proof fn lemma_record(s: LiveSession, entry: RolloutEntry, record: ArchiveRecord, t: LiveSession)
    requires
        faithful(s),
        s.records.len() > 0,
        decoded(entry) == Ok::<Option<ArchiveRecord>, ErrorModel>(Some(record)),
        entry is SamplingStarted || entry is Transition,
        t.rollout == s.rollout.push(entry),
        t.records == s.records.push(record),
        t.told == s.told.push(InputModel::Archive(record)),
        t.projected == s.projected,
        t.epoch == s.epoch,
        t.coordinator.seed is None,
        t.coordinator.next_boundary == s.coordinator.next_boundary,
    ensures
        faithful(t),
{
    let list = in_effect(s);
    lemma_in_effect(s.rollout, entry);
    let numbered_entry = (source_count(s.rollout) as usize, entry);
    assert(in_effect(t).drop_last() =~= list);
    assert(in_effect(t).last() == numbered_entry);
    lemma_first_sampling_push(list, numbered_entry);
    assert(in_effect(t) == list.push(numbered_entry));
    lemma_preceding_push(list, numbered_entry);
    assert(t.records.drop_last() =~= s.records);
    let first = sampling_thread(s.records)->Some_0;
    assert(sampling_thread(t.records) == Some(first));
    lemma_replay_push(list, numbered_entry, first, t.records);
    let at = first_sampling(list);
    match seed_of(list) {
        Some(Ok(seed)) => {
            let start = seeded_all(fresh(first), list.take(at), seed_models(seed@))->Ok_0;
            lemma_seed_uses_no_records(fresh(first), list.take(at), seed_models(seed@));
            lemma_more_records(start, list.skip(at), s.records, record);
        },
        Some(Err(_)) => {},
        None => {
            lemma_more_records(fresh(first), list, s.records, record);
        },
    }
    assert(replay_of(list, first, t.records) == replay_now(s));
    assert(t.records[s.records.len() as int] == record);
}

proof fn lemma_seed_uses_no_records(m: PlanModel, list: Seq<Numbered>, seed: Seq<SeedModel>)
    requires
        seeded_all(m, list, seed) is Ok,
    ensures
        seeded_all(m, list, seed)->Ok_0.used == m.used,
    decreases seed.len(),
{
    if seed.len() > 0 {
        lemma_seed_uses_no_records(m, list, seed.drop_last());
    }
}

proof fn lemma_noted(s: LiveSession, t: LiveSession)
    requires
        faithful(s),
        t.rollout == s.rollout.push(RolloutEntry::Other),
        t == (LiveSession { rollout: t.rollout, ..s }),
    ensures
        faithful(t),
{
    lemma_in_effect(s.rollout, RolloutEntry::Other);
}

proof fn lemma_counted(s: LiveSession, info: Option<TokenInfo>)
    requires
        faithful(s),
    ensures
        faithful(happened(s, LiveStep::Counted { info })),
{
    let t = happened(s, LiveStep::Counted { info });
    let entry = RolloutEntry::TokenCount { info };
    match info {
        Some(info) => {
            if s.records.len() == 0 {
                let added = SeedModel::Usage {
                    boundary: s.coordinator.next_boundary,
                    input_tokens: info.input_tokens,
                    model_context_window: info.model_context_window,
                };
                lemma_seed_entry(s, entry, added, t);
            } else {
                lemma_entry(s, entry, t);
            }
        },
        None => {
            if s.records.len() == 0 {
                let list = in_effect(s);
                lemma_in_effect(s.rollout, entry);
                let numbered_entry = (source_count(s.rollout) as usize, entry);
                assert(in_effect(t).drop_last() =~= list);
                assert(in_effect(t).last() == numbered_entry);
                lemma_first_sampling_push(list, numbered_entry);
                assert(in_effect(t) == list.push(numbered_entry));
                lemma_seed_persisted_push(s.coordinator.seed->Some_0, list, numbered_entry);
            } else {
                lemma_entry(s, entry, t);
            }
        },
    }
}

proof fn lemma_compacted(s: LiveSession, step: LiveStep)
    requires
        faithful(s),
        step is Compacted,
        can_happen(s, step),
    ensures
        faithful(happened(s, step)),
{
    if let LiveStep::Compacted { thread, message, replacement, ids } = step {
        let t = happened(s, step);
        let entry = RolloutEntry::Compacted { message, replacement_history: Some(replacement) };
        let items = item_models(replacement@);
        let barrier = barrier_of(s, thread, replacement@);
        if s.records.len() == 0 {
            let added = SeedModel::Compact {
                barrier,
                replacement: items.map_values(|i: HistoryModel| Some(i)),
            };
            lemma_whole_replacement(items);
            lemma_seed_entry(s, entry, added, t);
        } else {
            let plan = replay_now(s)->Ok_0;
            assert(replacement_items(message@, Some(replacement)) == items);
            assert(replayed(plan, entry, s.records) == compacted(plan, items));
            lemma_entry(s, entry, t);
        }
    }
}

proof fn lemma_happened(s: LiveSession, step: LiveStep)
    requires
        faithful(s),
        can_happen(s, step),
    ensures
        faithful(happened(s, step)),
{
    let t = happened(s, step);
    match step {
        LiveStep::Observed { entries, ids } => {
            lemma_observed(s, entries, entries.len() as int);
            assert(entries.take(entries.len() as int) =~= entries);
            let seen = partly_observed(s, entries, entries.len() as int);
            assert(in_effect(t) == in_effect(seen));
            assert(replay_now(t) == replay_now(seen));
        },
        LiveStep::Started { item, record } => {
            if s.records.len() == 0 {
                lemma_first_start(s, item, record);
            } else {
                lemma_record(s, started_entry(item), record, t);
            }
        },
        LiveStep::Ending { .. } => {
            assert(in_effect(t) == in_effect(s));
            assert(replay_now(t) == replay_now(s));
        },
        LiveStep::Committed { record, .. } => {
            lemma_record(s, commit_entry(record), record, t);
        },
        LiveStep::Counted { info } => {
            lemma_counted(s, info);
        },
        LiveStep::Compacted { .. } => {
            lemma_compacted(s, step);
        },
        LiveStep::Noted => {
            lemma_noted(s, t);
        },
        LiveStep::Resumed { .. } => {
            assert(s.records.len() > 0);
            assert(in_effect(t) == in_effect(s));
            assert(replay_now(t) == replay_now(s));
        },
    }
}

proof fn lemma_lived(steps: Seq<LiveStep>)
    requires
        can_be_lived(begun(), steps),
    ensures
        faithful(lived(begun(), steps)),
    decreases steps.len(),
{
    if steps.len() == 0 {
        let s = begun();
        assert(numbered(s.rollout) =~= Seq::empty());
        assert(in_effect(s) =~= Seq::empty());
        assert(leads_to(seed_plan(Seq::empty()), s));
    } else {
        let before = lived(begun(), steps.drop_last());
        lemma_lived(steps.drop_last());
        lemma_happened(before, steps.last());
    }
}

/// Whatever a session lives through, once an attempt was recorded, its rollout
/// is replayed from its records, and the replay tells a new runtime what the
/// session's runtime was told and ends where the session stands. That holds of a
/// session that was itself resumed, any number of times, and of attempts that
/// were never committed.
///
/// The replay also gives the source cells the items that they stood for, where
/// the items that precede the first attempt stand for themselves: of two opaque
/// ones with one identity, the replay keeps the later one.
pub proof fn a_replay_tells_what_was_told(steps: Seq<LiveStep>)
    requires
        can_be_lived(begun(), steps),
        lived(begun(), steps).records.len() > 0,
    ensures
        ({
            let s = lived(begun(), steps);
            let list = effective(numbered(s.rollout));
            &&& archived_records(list) == Ok::<Seq<ArchiveRecord>, ErrorModel>(s.records)
            &&& sampling_thread(s.records) is Some
            &&& replay_of(list, sampling_thread(s.records)->Some_0, s.records) matches Ok(plan)
                && plan.inputs == s.told && plan.next_boundary == s.coordinator.next_boundary
                && plan.epoch == s.epoch && plan.used == s.records.len() && (identified(
                preceding(list),
            ) ==> plan.projected == s.projected)
        }),
{
    lemma_lived(steps);
}

/// A resumed session stands where the session before it stood, is not faulted,
/// and can start another attempt.
pub proof fn a_resumed_session_goes_on(
    steps: Seq<LiveStep>,
    ids: Seq<String>,
    usage: Seq<TokenUsageSample>,
    user_messages: Seq<(u64, Seq<char>)>,
    item: SpineSamplingStartedItem,
    record: ArchiveRecord,
)
    requires
        can_be_lived(begun(), steps),
        lived(begun(), steps).records.len() > 0,
        record is SamplingStarted,
        item.record == (ArchivedRecord { version: SPINE_ROLLOUT_VERSION, payload: Ok(record) }),
        item.replay_seed is None,
    ensures
        ({
            let s = lived(begun(), steps);
            let t = happened(s, LiveStep::Resumed { ids, usage, user_messages });
            &&& can_happen(s, LiveStep::Resumed { ids, usage, user_messages })
            &&& t.coordinator.fault is None
            &&& t.coordinator.seed is None
            &&& t.coordinator.next_boundary == s.coordinator.next_boundary
            &&& t.told == s.told
            &&& identified(preceding(in_effect(s))) ==> t.projected == s.projected
            &&& t.epoch == s.epoch
            &&& can_happen(t, LiveStep::Started { item, record })
        }),
{
    lemma_lived(steps);
}

/// Whether a rollout has the start of a sampling attempt.
pub open spec fn has_start(list: Seq<Numbered>) -> bool {
    exists|i: int| 0 <= i < list.len() && (#[trigger] list[i]).1 is SamplingStarted
}

/// The first attempt is where the first start stands.
pub proof fn the_first_start_is_found(list: Seq<Numbered>)
    ensures
        0 <= first_sampling(list) <= list.len(),
        has_start(list) <==> first_sampling(list) < list.len(),
        first_sampling(list) < list.len() ==> list[first_sampling(list)].1 is SamplingStarted,
        forall|i: int|
            0 <= i < first_sampling(list) ==> !((#[trigger] list[i]).1 is SamplingStarted),
    decreases list.len(),
{
    if list.len() > 0 {
        let rest = list.drop_last();
        the_first_start_is_found(rest);
        assert forall|i: int| 0 <= i < rest.len() implies rest[i] == #[trigger] list[i] by {}
        if has_start(rest) {
            let i = choose|i: int| 0 <= i < rest.len() && (#[trigger] rest[i]).1 is SamplingStarted;
            assert(list[i].1 is SamplingStarted);
        }
        if first_sampling(rest) < rest.len() {
            assert(list[first_sampling(rest)] == rest[first_sampling(rest)]);
        }
        assert forall|i: int| 0 <= i < first_sampling(list) implies !((#[trigger] list[i]).1
            is SamplingStarted) by {
            if i < rest.len() {
                assert(rest[i] == list[i]);
            }
        }
    }
}

/// Whether an entry adds to a replay by itself: it is not a first start that
/// carries what preceded it.
pub open spec fn adds_itself(list: Seq<Numbered>, entry: RolloutEntry) -> bool {
    has_start(list) || !(entry matches RolloutEntry::SamplingStarted { replay_seed: Some(_), .. })
}

proof fn lemma_adds_itself(
    list: Seq<Numbered>,
    entry: Numbered,
    thread: Seq<char>,
    records: Seq<ArchiveRecord>,
)
    requires
        adds_itself(list, entry.1),
    ensures
        replay_of(list.push(entry), thread, records) == match replay_of(list, thread, records) {
            Err(error) => Err(error),
            Ok(before) => replayed(before, entry.1, records),
        },
{
    the_first_start_is_found(list);
    if has_start(list) {
        lemma_replay_push(list, entry, thread, records);
    } else {
        lemma_first_sampling_push(list, entry);
        assert(list.push(entry).drop_last() =~= list);
        assert(list.push(entry).last() == entry);
    }
}

/// Replaying an item of the history, or a message from another agent, tells the
/// runtime of it at the next place, and keeps it as what its cell stands for.
pub proof fn an_item_is_replayed(
    list: Seq<Numbered>,
    ordinal: usize,
    entry: RolloutEntry,
    thread: Seq<char>,
    records: Seq<ArchiveRecord>,
)
    requires
        entry is ResponseItem || entry is InterAgentCommunication,
        replay_of(list, thread, records) is Ok,
    ensures
        ({
            let p = replay_of(list, thread, records)->Ok_0;
            let (item, contextual) = match entry {
                RolloutEntry::ResponseItem { item, contextual, .. } => (item@, contextual),
                RolloutEntry::InterAgentCommunication { item, contextual } => (item@, contextual),
                _ => arbitrary(),
            };
            replay_of(list.push((ordinal, entry)), thread, records) matches Ok(q)
                && q.projected.len() == p.projected.len() + 1 && q.projected.drop_last()
                == p.projected && q.projected.last() == item_source(item) && q.inputs.len()
                == p.inputs.len() + 1 && q.inputs.drop_last() == p.inputs && q.inputs.last() == (
            InputModel::Source(item_char(item, contextual, p.next_boundary))) && (p.next_boundary
                < u64::MAX ==> q.next_boundary == p.next_boundary + 1) && q.epoch == p.epoch
                && q.thread == p.thread && q.used == p.used && q.samples == p.samples
        }),
{
    lemma_adds_itself(list, (ordinal, entry), thread, records);
    let p = replay_of(list, thread, records)->Ok_0;
    let q = replay_of(list.push((ordinal, entry)), thread, records)->Ok_0;
    assert(q.projected.drop_last() =~= p.projected);
    assert(q.inputs.drop_last() =~= p.inputs);
}

/// After a compaction, the source cells stand for what replaced the history, or
/// where nothing replaced it, for one message of the assistant that says the
/// summary. The runtime is told of the compaction at the next place, and the
/// replacements have the places after it.
pub proof fn a_compaction_is_replayed(
    list: Seq<Numbered>,
    ordinal: usize,
    message: String,
    replacement_history: Option<Vec<HistoryItem>>,
    thread: Seq<char>,
    records: Seq<ArchiveRecord>,
)
    requires
        replay_of(list, thread, records) is Ok,
    ensures
        ({
            let p = replay_of(list, thread, records)->Ok_0;
            let entry = RolloutEntry::Compacted { message, replacement_history };
            let after = replay_of(list.push((ordinal, entry)), thread, records);
            &&& p.epoch == u64::MAX ==> after is Err
            &&& p.epoch < u64::MAX ==> (after matches Ok(q) && match replacement_history {
                Some(items) => q.projected.len() == items@.len() && forall|i: int|
                    0 <= i < items@.len() ==> #[trigger] q.projected[i] == items@[i]@,
                None => q.projected.len() == 1 && item_text(q.projected[0]) == message@
                    && q.projected[0].id is None && (q.projected[0].body matches
                    HistoryBodyModel::Message { role, content } && role == "assistant"@
                    && content == seq![ContentModel::OutputText { text: message@ }]),
            })
            &&& after matches Ok(q) ==> q.epoch == p.epoch + 1 && q.thread == p.thread && q.used
                == p.used && q.samples == p.samples && q.inputs.len() == p.inputs.len() + 1
                && q.inputs.drop_last() == p.inputs && (q.inputs.last() matches InputModel::Compact(
                barrier,
            ) && barrier.thread == p.thread && barrier.epoch == p.epoch && barrier.next_epoch
                == q.epoch && barrier.boundary == p.next_boundary
                && barrier.replacement_boundaries.len() == q.projected.len() && forall|i: int|
                0 <= i < q.projected.len() && p.next_boundary + i < u64::MAX
                    ==> #[trigger] barrier.replacement_boundaries[i] == p.next_boundary + i + 1)
                && (p.next_boundary + q.projected.len() < u64::MAX ==> q.next_boundary
                == p.next_boundary + q.projected.len() + 1)
        }),
{
    let entry = RolloutEntry::Compacted { message, replacement_history };
    lemma_adds_itself(list, (ordinal, entry), thread, records);
    let p = replay_of(list, thread, records)->Ok_0;
    if p.epoch < u64::MAX {
        let q = replay_of(list.push((ordinal, entry)), thread, records)->Ok_0;
        assert(q.inputs.drop_last() =~= p.inputs);
        if replacement_history is None {
            assert(q.projected.len() == 1);
            a_message_says_its_texts(
                q.projected[0],
                "assistant"@,
                Seq::empty(),
                ContentModel::OutputText { text: message@ },
            );
        }
    }
}

/// Two compactions that nothing replaced leave the same source items only if
/// their summaries are the same.
pub proof fn summaries_are_told_apart(
    list: Seq<Numbered>,
    ordinal: usize,
    one: String,
    other: String,
    thread: Seq<char>,
    records: Seq<ArchiveRecord>,
)
    requires
        replay_of(list, thread, records) is Ok,
        replay_of(list, thread, records)->Ok_0.epoch < u64::MAX,
        one@ != other@,
    ensures
        replay_of(
            list.push(
                (ordinal, RolloutEntry::Compacted { message: one, replacement_history: None }),
            ),
            thread,
            records,
        )->Ok_0.projected != replay_of(
            list.push(
                (ordinal, RolloutEntry::Compacted { message: other, replacement_history: None }),
            ),
            thread,
            records,
        )->Ok_0.projected,
{
    a_compaction_is_replayed(list, ordinal, one, None, thread, records);
    a_compaction_is_replayed(list, ordinal, other, None, thread, records);
}

/// A record of a sampling attempt is handed to the runtime in the order of the
/// records, and a commit brings its thread; a token count is handed over at the
/// next place, with the context window noted there. Neither touches what the
/// source cells stand for.
pub proof fn records_and_counts_are_replayed(
    list: Seq<Numbered>,
    ordinal: usize,
    entry: RolloutEntry,
    thread: Seq<char>,
    records: Seq<ArchiveRecord>,
)
    requires
        replay_of(list, thread, records) is Ok,
        adds_itself(list, entry),
        entry is SamplingStarted || entry is Transition || entry is TokenCount || entry is Other,
    ensures
        ({
            let p = replay_of(list, thread, records)->Ok_0;
            let after = replay_of(list.push((ordinal, entry)), thread, records);
            &&& after matches Ok(q) ==> q.projected == p.projected && q.next_boundary
                == p.next_boundary && q.epoch == p.epoch
            &&& entry is SamplingStarted || entry is Transition ==> match after {
                Ok(q) => 0 <= p.used < records.len() ==> q.used == p.used + 1 && q.inputs
                    == p.inputs.push(InputModel::Archive(records[p.used])) && q.samples
                    == p.samples && q.thread == match records[p.used] {
                    ArchiveRecord::SamplingCommit { thread, .. } => thread@,
                    ArchiveRecord::SamplingStarted { .. } => p.thread,
                },
                Err(_) => p.used >= records.len() || decoded(entry) is Err,
            }
            &&& p.used >= records.len() && (entry is SamplingStarted || entry is Transition)
                ==> after is Err
            &&& entry matches RolloutEntry::TokenCount { info: Some(info) } ==> (after matches Ok(q)
                && q.used == p.used && q.thread == p.thread && q.inputs == p.inputs.push(
                InputModel::Usage { boundary: p.next_boundary, input_tokens: info.input_tokens },
            ) && match info.model_context_window {
                Some(window) => q.samples.len() == p.samples.len() + 1 && q.samples.drop_last()
                    == p.samples && q.samples.last().boundary == p.next_boundary
                    && q.samples.last().model_context_window == window,
                None => q.samples == p.samples,
            })
            &&& entry is Other || entry == (RolloutEntry::TokenCount { info: None }) ==> after
                == Ok::<PlanModel, ErrorModel>(p)
        }),
{
    lemma_adds_itself(list, (ordinal, entry), thread, records);
    let p = replay_of(list, thread, records)->Ok_0;
    if let RolloutEntry::TokenCount { info: Some(info) } = entry {
        let q = replay_of(list.push((ordinal, entry)), thread, records)->Ok_0;
        if info.model_context_window is Some {
            assert(q.samples.drop_last() =~= p.samples);
        }
    }
}

/// A replay of nothing tells nothing and stands at the beginning, in the thread
/// that it was asked for.
pub proof fn a_replay_begins_empty(thread: Seq<char>, records: Seq<ArchiveRecord>)
    ensures
        replay_of(Seq::empty(), thread, records) matches Ok(p) && p.inputs.len() == 0
            && p.projected.len() == 0 && p.samples.len() == 0 && p.epoch == 0 && p.next_boundary
            == 0 && p.used == 0 && p.thread == thread,
{
}

/// The seed of the first attempt stands for everything before it: a replay goes
/// on from the seed alone, and what the rollout holds before the start only
/// says what opaque items are.
pub proof fn a_seed_stands_for_what_precedes(
    front: Seq<Numbered>,
    other: Seq<Numbered>,
    start: Numbered,
    thread: Seq<char>,
    records: Seq<ArchiveRecord>,
)
    requires
        !has_start(front),
        !has_start(other),
        start.1 matches RolloutEntry::SamplingStarted { replay_seed: Some(_), .. },
    ensures
        match (
            replay_of(front.push(start), thread, records),
            replay_of(other.push(start), thread, records),
        ) {
            (Ok(p), Ok(q)) => p.inputs == q.inputs && p.next_boundary == q.next_boundary && p.epoch
                == q.epoch && p.used == q.used && p.samples == q.samples && p.thread == q.thread
                && p.projected.len() == q.projected.len(),
            (Err(a), Err(b)) => a == b,
            _ => false,
        },
{
    the_first_start_is_found(front);
    the_first_start_is_found(other);
    lemma_first_sampling_push(front, start);
    lemma_first_sampling_push(other, start);
    let f = front.push(start);
    let o = other.push(start);
    assert(f.take(front.len() as int) =~= front);
    assert(o.take(other.len() as int) =~= other);
    assert(f.skip(front.len() as int) =~= seq![start]);
    assert(o.skip(other.len() as int) =~= seq![start]);
    if let RolloutEntry::SamplingStarted { replay_seed: Some(Ok(seed)), .. } = start.1 {
        lemma_seeds_agree(thread, front, other, seed_models(seed@));
        let one = seq![start];
        assert(one.drop_last() =~= Seq::empty());
        assert(one.last() == start);
        match (
            seeded_all(fresh(thread), front, seed_models(seed@)),
            seeded_all(fresh(thread), other, seed_models(seed@)),
        ) {
            (Ok(a), Ok(b)) => {
                assert(replayed_all(a, one.drop_last(), records) == Ok::<PlanModel, ErrorModel>(a));
                assert(replayed_all(b, one.drop_last(), records) == Ok::<PlanModel, ErrorModel>(b));
            },
            _ => {},
        }
    }
}

proof fn lemma_seeds_agree(
    thread: Seq<char>,
    front: Seq<Numbered>,
    other: Seq<Numbered>,
    seed: Seq<SeedModel>,
)
    ensures
        match (seeded_all(fresh(thread), front, seed), seeded_all(fresh(thread), other, seed)) {
            (Ok(p), Ok(q)) => p == (PlanModel { projected: p.projected, ..q })
                && p.projected.len() == q.projected.len(),
            (Err(a), Err(b)) => a == b,
            _ => false,
        },
    decreases seed.len(),
{
    if seed.len() > 0 {
        lemma_seeds_agree(thread, front, other, seed.drop_last());
    }
}

/// Taking in one more item of a seed: an item at the place that the seed gives,
/// a compaction as it was handed over, or a token count.
pub proof fn a_seed_is_taken_in(
    thread: Seq<char>,
    list: Seq<Numbered>,
    seed: Seq<SeedModel>,
    item: SeedModel,
)
    requires
        seeded_all(fresh(thread), list, seed) is Ok,
    ensures
        ({
            let p = seeded_all(fresh(thread), list, seed)->Ok_0;
            let after = seeded_all(fresh(thread), list, seed.push(item));
            &&& after matches Ok(q) ==> q.thread == p.thread && q.used == p.used
                && q.inputs.len() == p.inputs.len() + 1 && q.inputs.drop_last() == p.inputs
            &&& item matches SeedModel::Source { boundary, item: None } ==> after is Err
            &&& item matches SeedModel::Source { boundary, item: Some(source) } ==> (
            after matches Ok(q) && q.inputs.last() == InputModel::Source(
                item_char(source.0, source.1, boundary),
            ) && q.projected.len() == p.projected.len() + 1 && q.projected.drop_last()
                == p.projected && (source.0.id is None || source.0.body is Message
                || source.0.body is Reasoning ==> q.projected.last() == item_source(source.0)) && (
            boundary < u64::MAX ==> q.next_boundary == boundary + 1) && q.epoch == p.epoch
                && q.samples == p.samples)
            &&& item matches SeedModel::Compact { barrier, replacement } ==> match after {
                Ok(q) => q.inputs.last() == InputModel::Compact(barrier) && q.epoch
                    == barrier.next_epoch && q.samples == p.samples && q.projected.len()
                    == replacement.len() && (forall|i: int|
                    0 <= i < replacement.len() ==> Some(#[trigger] q.projected[i])
                        == replacement[i]) && (barrier.replacement_boundaries.len() == 0
                    && barrier.boundary < u64::MAX ==> q.next_boundary == barrier.boundary + 1) && (
                barrier.replacement_boundaries.len() > 0 && barrier.replacement_boundaries.last()
                    < u64::MAX ==> q.next_boundary == barrier.replacement_boundaries.last() + 1),
                Err(_) => exists|i: int| 0 <= i < replacement.len() && #[trigger] replacement[i] is None,
            }
            &&& item matches SeedModel::Usage { boundary, input_tokens, model_context_window } ==> (
            after matches Ok(q) && q.inputs.last() == (InputModel::Usage { boundary, input_tokens })
                && q.projected == p.projected && q.next_boundary == p.next_boundary && q.epoch
                == p.epoch && match model_context_window {
                Some(window) => q.samples.len() == p.samples.len() + 1 && q.samples.drop_last()
                    == p.samples && q.samples.last().boundary == boundary
                    && q.samples.last().model_context_window == window,
                None => q.samples == p.samples,
            })
        }),
{
    let p = seeded_all(fresh(thread), list, seed)->Ok_0;
    let after = seeded_all(fresh(thread), list, seed.push(item));
    assert(seed.push(item).drop_last() =~= seed);
    if let Ok(q) = after {
        assert(q.inputs.drop_last() =~= p.inputs);
        match item {
            SeedModel::Source { .. } => {
                assert(q.projected.drop_last() =~= p.projected);
            },
            SeedModel::Usage { model_context_window: Some(_), .. } => {
                assert(q.samples.drop_last() =~= p.samples);
            },
            _ => {},
        }
    }
    if let SeedModel::Compact { replacement, .. } = item {
        lemma_replacement_items(replacement);
    }
}

proof fn lemma_replacement_items(items: Seq<Option<HistoryModel>>)
    ensures
        match seeded_replacement(items) {
            Ok(found) => found.len() == items.len() && forall|i: int|
                0 <= i < items.len() ==> Some(#[trigger] found[i]) == items[i],
            Err(_) => exists|i: int| 0 <= i < items.len() && #[trigger] items[i] is None,
        },
    decreases items.len(),
{
    if items.len() > 0 {
        let rest = items.drop_last();
        lemma_replacement_items(rest);
        match seeded_replacement(rest) {
            Ok(found) => {
                if items.last() is None {
                    assert(items[items.len() - 1] is None);
                } else {
                    let all = seeded_replacement(items)->Ok_0;
                    assert forall|i: int| 0 <= i < items.len() implies Some(#[trigger] all[i])
                        == items[i] by {
                        if i < rest.len() {
                            assert(all[i] == found[i]);
                            assert(rest[i] == items[i]);
                        }
                    }
                }
            },
            Err(_) => {
                let i = choose|i: int| 0 <= i < rest.len() && #[trigger] rest[i] is None;
                assert(items[i] is None);
            },
        }
    }
}

/// An opaque item of a seed stands for the last item of the history that was
/// persisted with its identity before the first attempt, or for itself.
pub proof fn opaque_items_are_as_persisted(
    front: Seq<Numbered>,
    last: Numbered,
    tail: Seq<Numbered>,
    item: HistoryModel,
    id: Seq<char>,
)
    requires
        item.id == Some(id),
        !(item.body is Message || item.body is Reasoning),
        forall|i: int|
            0 <= i < tail.len() ==> !((#[trigger] tail[i]).1 matches RolloutEntry::ResponseItem {
                item: other,
                ..
            } && other@.id == Some(id)),
    ensures
        last.1 matches RolloutEntry::ResponseItem { item: found, .. } ==> (found@.id == Some(id)
            ==> seeded_item(front + seq![last] + tail, item) == found@),
        seeded_item(tail, item) == item_source(item),
    decreases tail.len(),
{
    let list = front + seq![last] + tail;
    if tail.len() == 0 {
        assert(list.last() == last);
    } else {
        let rest = tail.drop_last();
        assert forall|i: int| 0 <= i < rest.len() implies !((#[trigger] rest[i]).1 matches
            RolloutEntry::ResponseItem { item: other, .. } && other@.id == Some(id)) by {
            assert(rest[i] == tail[i]);
        }
        opaque_items_are_as_persisted(front, last, rest, item, id);
        assert(list.drop_last() =~= front + seq![last] + rest);
        assert(list.last() == tail[tail.len() - 1]);
        assert(tail.last() == tail[tail.len() - 1]);
    }
}

} // verus!
