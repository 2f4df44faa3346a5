//! What a session keeps of its task tree.

use vstd::prelude::*;

verus! {

use crate::archive::{
    archived_records, decoded, error_text, has_commit, sampling_thread, ErrorModel,
};
use crate::coordinator::{
    advanced, bound, compaction_installed, counted, faulted, observed, paired, replay_installed,
    replayed_commit, source_chars, spawn_calls, with_window, CommittedExecution, CoordinatorModel,
    PreparedContextPlan, TokenUsageSample,
};
use crate::history::{item_char, HistoryItem, HistoryModel};
use crate::replay::{BarrierModel, PlanModel, SeedModel};
use crate::rollout_source::{
    projection_views, ArchiveRecord, ArchivedRecord, Numbered, PayloadError, RolloutEntry, TokenInfo,
};
use crate::sampling::{finished, last_config, start_error, FinishModel};
use crate::text::decimal_text;

proof fn lemma_advanced(boundary: u64, count: nat)
    ensures
        boundary + count <= u64::MAX ==> advanced(boundary, count) == boundary + count,
    decreases count,
{
    if count > 0 {
        lemma_advanced(boundary, (count - 1) as nat);
    }
}

/// Observed items get one place each, one after the other; the runtime is told of
/// each at its place, and what precedes the first attempt takes each along.
pub proof fn observed_items_have_places(
    m: CoordinatorModel,
    items: Seq<(HistoryModel, bool)>,
    i: int,
)
    requires
        m.next_boundary + items.len() <= u64::MAX,
    ensures
        ({
            let t = observed(m, items);
            &&& t.next_boundary == m.next_boundary + items.len()
            &&& source_chars(items, m.next_boundary).len() == items.len()
            &&& 0 <= i < items.len() ==> source_chars(items, m.next_boundary)[i] == item_char(
                items[i].0,
                items[i].1,
                (m.next_boundary + i) as u64,
            )
            &&& m.seed is None ==> t.seed is None
            &&& m.seed matches Some(seed) ==> (t.seed matches Some(after) && after.len()
                == seed.len() + items.len() && after.take(seed.len() as int) == seed && (0 <= i
                < items.len() ==> after[seed.len() + i] == (SeedModel::Source {
                boundary: (m.next_boundary + i) as u64,
                item: Some(items[i]),
            })))
            &&& t.source_items == m.source_items && t.fault == m.fault && t.usage == m.usage
                && t.windows == m.windows && t.user_messages == m.user_messages
        }),
{
    lemma_advanced(m.next_boundary, items.len());
    if 0 <= i < items.len() {
        lemma_advanced(m.next_boundary, i as nat);
    }
    if let Some(seed) = m.seed {
        let after = observed(m, items).seed->Some_0;
        assert(after.take(seed.len() as int) =~= seed);
    }
}

/// Source cells stand for the items at their positions, the later one where two
/// cells have one identity; other cells keep what they stand for.
pub proof fn cells_stand_for_their_items(
    items: Map<Seq<char>, HistoryModel>,
    ids: Seq<String>,
    projected: Seq<HistoryModel>,
    count: int,
    i: int,
    id: Seq<char>,
)
    requires
        0 <= count <= ids.len(),
        count <= projected.len(),
    ensures
        0 <= i < count && (forall|j: int| i < j < count ==> (#[trigger] ids[j])@ != ids[i]@)
            ==> bound(items, ids, projected, count).contains_key(ids[i]@) && bound(
            items,
            ids,
            projected,
            count,
        )[ids[i]@] == projected[i],
        (forall|j: int| 0 <= j < count ==> (#[trigger] ids[j])@ != id) ==> (bound(
            items,
            ids,
            projected,
            count,
        ).contains_key(id) <==> items.contains_key(id)) && (items.contains_key(id) ==> bound(
            items,
            ids,
            projected,
            count,
        )[id] == items[id]),
        paired(ids, projected) <= ids.len() && paired(ids, projected) <= projected.len(),
        paired(ids, projected) == ids.len() || paired(ids, projected) == projected.len(),
    decreases count,
{
    if count > 0 {
        cells_stand_for_their_items(items, ids, projected, count - 1, i, id);
    }
}

/// A fault is the reason that it was first given, and changes nothing else.
pub proof fn a_fault_is_its_first_reason(m: CoordinatorModel, reason: Seq<char>)
    ensures
        m.fault is None ==> faulted(m, reason).fault == Some(reason),
        m.fault is Some ==> faulted(m, reason).fault == m.fault,
        faulted(m, reason).next_boundary == m.next_boundary,
        faulted(m, reason).seed == m.seed,
        faulted(m, reason).source_items == m.source_items,
        faulted(m, reason).usage == m.usage,
        faulted(m, reason).windows == m.windows,
        faulted(m, reason).user_messages == m.user_messages,
{
}

/// A context window is noted at the place where the source stands, once.
pub proof fn windows_are_noted_once(m: CoordinatorModel, window: i64)
    ensures
        with_window(m, window).windows.len() > 0,
        with_window(m, window).windows.last().boundary == m.next_boundary,
        with_window(m, window).windows.last().model_context_window == window,
        with_window(with_window(m, window), window) == with_window(m, window),
        m.windows.is_prefix_of(with_window(m, window).windows),
        with_window(m, window).windows.len() <= m.windows.len() + 1,
        !(m.windows.len() > 0 && m.windows.last().boundary == m.next_boundary
            && m.windows.last().model_context_window == window) ==> with_window(
            m,
            window,
        ).windows.len() == m.windows.len() + 1,
        with_window(m, window).next_boundary == m.next_boundary,
        with_window(m, window).seed == m.seed,
        with_window(m, window).usage == m.usage,
{
}

/// A token count is noted at the place where the source stands, with its window
/// where it has one, and goes with what precedes the first attempt.
pub proof fn counts_are_noted(m: CoordinatorModel, info: TokenInfo)
    ensures
        ({
            let t = counted(m, info);
            &&& t.usage == m.usage.push(
                TokenUsageSample { boundary: m.next_boundary, input_tokens: info.input_tokens },
            )
            &&& t.next_boundary == m.next_boundary && t.source_items == m.source_items && t.fault
                == m.fault && t.user_messages == m.user_messages
            &&& info.model_context_window is None ==> t.windows == m.windows
            &&& info.model_context_window matches Some(window) ==> t.windows.len() > 0
                && t.windows.last().boundary == m.next_boundary
                && t.windows.last().model_context_window == window
            &&& m.seed is None ==> t.seed is None
            &&& m.seed matches Some(seed) ==> t.seed == Some(
                seed.push(
                    SeedModel::Usage {
                        boundary: m.next_boundary,
                        input_tokens: info.input_tokens,
                        model_context_window: info.model_context_window,
                    },
                ),
            )
        }),
{
}

/// After a compaction only the replacement's cells stand for anything, and the
/// source goes on behind the last of its places.
pub proof fn a_compaction_replaces_the_cells(
    m: CoordinatorModel,
    barrier: BarrierModel,
    replacement: Seq<HistoryModel>,
    ids: Seq<String>,
    id: Seq<char>,
)
    ensures
        ({
            let t = compaction_installed(m, barrier, replacement, ids);
            &&& barrier.replacement_boundaries.len() > 0 && barrier.replacement_boundaries.last()
                < u64::MAX ==> t.next_boundary == barrier.replacement_boundaries.last() + 1
            &&& barrier.replacement_boundaries.len() == 0 && barrier.boundary < u64::MAX
                ==> t.next_boundary == barrier.boundary + 1
            &&& t.source_items.contains_key(id) ==> exists|i: int|
                0 <= i < ids.len() && i < replacement.len() && (#[trigger] ids[i])@ == id
            &&& m.seed is None ==> t.seed is None
            &&& m.seed matches Some(seed) ==> (t.seed matches Some(after) && after.len()
                == seed.len() + 1 && after.drop_last() == seed && (after.last() matches
                SeedModel::Compact { barrier: kept, replacement: items } && kept == barrier
                && items.len() == replacement.len() && forall|i: int|
                0 <= i < items.len() ==> #[trigger] items[i] == Some(replacement[i])))
        }),
{
    let t = compaction_installed(m, barrier, replacement, ids);
    let n = paired(ids, replacement);
    if let Some(seed) = m.seed {
        assert(t.seed->Some_0.drop_last() =~= seed);
    }
    if t.source_items.contains_key(id) {
        if forall|j: int| 0 <= j < n ==> (#[trigger] ids[j])@ != id {
            cells_stand_for_their_items(Map::empty(), ids, replacement, n, 0, id);
        }
    }
}

/// A replay leaves the session where the replay ended, without a seed, with the
/// windows of the replay; a fault stays.
pub proof fn a_replay_is_installed(
    m: CoordinatorModel,
    plan: PlanModel,
    ids: Seq<String>,
    usage: Seq<TokenUsageSample>,
    user_messages: Seq<(u64, Seq<char>)>,
    i: int,
)
    ensures
        ({
            let t = replay_installed(m, plan, ids, usage, user_messages);
            &&& t.next_boundary == plan.next_boundary
            &&& t.seed is None
            &&& t.fault == m.fault
            &&& t.usage == usage
            &&& t.windows == plan.samples
            &&& t.user_messages == user_messages
            &&& 0 <= i < ids.len() && ids.len() == plan.projected.len() && (forall|j: int|
                i < j < ids.len() ==> (#[trigger] ids[j])@ != ids[i]@)
                ==> t.source_items.contains_key(ids[i]@) && t.source_items[ids[i]@]
                == plan.projected[i]
        }),
{
    cells_stand_for_their_items(
        Map::empty(),
        ids,
        plan.projected,
        paired(ids, plan.projected),
        i,
        Seq::empty(),
    );
}

/// What a replay brings is the planned context, or the native history where
/// nothing is planned; it settles nothing.
pub proof fn a_replay_brings_its_context(
    plan: PreparedContextPlan,
    native_history: Seq<HistoryItem>,
    i: int,
)
    ensures
        replayed_commit(Some(plan), native_history).items.len() == plan.items@.len(),
        0 <= i < plan.items@.len() ==> replayed_commit(Some(plan), native_history).items[i]
            == plan.items@[i]@,
        replayed_commit(Some(plan), native_history).user_messages == projection_views(
            plan.user_messages@,
        ),
        replayed_commit(Some(plan), native_history).settled.len() == 0,
        replayed_commit(None, native_history).items.len() == native_history.len(),
        0 <= i < native_history.len() ==> replayed_commit(None, native_history).items[i]
            == native_history[i]@,
        replayed_commit(None, native_history).user_messages.len() == 0,
        replayed_commit(None, native_history).settled.len() == 0,
{
}

/// A commit settles the calls of its executions that spawned branches, in order,
/// and no others.
pub proof fn spawn_calls_are_settled(executions: Seq<CommittedExecution>)
    ensures
        ({
            let spawned = executions.filter(|e: CommittedExecution| e.is_spawn);
            &&& spawn_calls(executions).len() == spawned.len()
            &&& forall|i: int|
                0 <= i < spawned.len() ==> #[trigger] spawn_calls(executions)[i]
                    == spawned[i].execution_ref@
        }),
    decreases executions.len(),
{
    reveal(Seq::filter);
    if executions.len() > 0 {
        spawn_calls_are_settled(executions.drop_last());
        let rest = executions.drop_last().filter(|e: CommittedExecution| e.is_spawn);
        let spawned = executions.filter(|e: CommittedExecution| e.is_spawn);
        assert(spawned == if executions.last().is_spawn {
            rest.push(executions.last())
        } else {
            rest
        });
        assert forall|i: int| 0 <= i < spawned.len() implies #[trigger] spawn_calls(executions)[i]
            == spawned[i].execution_ref@ by {
            if i < rest.len() {
                assert(spawn_calls(executions)[i] == spawn_calls(executions.drop_last())[i]);
            }
        }
    }
}

/// Records of the first and the second version are read, and of no other; a start
/// holds the record of a start, and a transition that of a commit.
pub proof fn records_are_read_by_version_and_kind(
    version: u32,
    payload: Result<ArchiveRecord, PayloadError>,
    sdk_config: Option<String>,
)
    ensures
        ({
            let record = ArchivedRecord { version, payload };
            let start = RolloutEntry::SamplingStarted { record, sdk_config, replay_seed: None };
            let transition = RolloutEntry::Transition { record };
            &&& version != 1 && version != 2 ==> decoded(start) == Err::<
                Option<ArchiveRecord>,
                ErrorModel,
            >(ErrorModel::UnsupportedVersion(version)) && decoded(transition) == decoded(start)
            &&& (version == 1 || version == 2) && payload is Ok && payload->Ok_0 is SamplingStarted
                ==> decoded(start) == Ok::<Option<ArchiveRecord>, ErrorModel>(Some(payload->Ok_0))
                && decoded(transition) is Err
            &&& (version == 1 || version == 2) && payload is Ok && payload->Ok_0 is SamplingCommit
                ==> decoded(transition) == Ok::<Option<ArchiveRecord>, ErrorModel>(
                Some(payload->Ok_0),
            ) && decoded(start) is Err
            &&& (version == 1 || version == 2) && payload is Err ==> decoded(start) is Err
                && decoded(transition) == decoded(start)
            &&& (version == 1 || version == 2) ==> (payload matches Err(PayloadError::Codec(text))
                ==> decoded(start) == Err::<Option<ArchiveRecord>, ErrorModel>(
                ErrorModel::Codec(text@),
            ))
            &&& (version == 1 || version == 2) ==> (payload matches Err(PayloadError::Archive(text))
                ==> decoded(start) == Err::<Option<ArchiveRecord>, ErrorModel>(
                ErrorModel::Archive(text@),
            ))
        }),
{
}

/// The records of a rollout are those of its starts and transitions, in order,
/// and unreadable where one of them is.
pub proof fn records_are_collected_in_order(list: Seq<Numbered>, entry: Numbered)
    ensures
        archived_records(Seq::empty()) == Ok::<Seq<ArchiveRecord>, ErrorModel>(Seq::empty()),
        archived_records(list) is Err ==> archived_records(list.push(entry)) == archived_records(
            list,
        ),
        archived_records(list) matches Ok(records) ==> {
            &&& !(entry.1 is SamplingStarted || entry.1 is Transition) ==> archived_records(
                list.push(entry),
            ) == Ok::<Seq<ArchiveRecord>, ErrorModel>(records)
            &&& entry.1 is SamplingStarted || entry.1 is Transition ==> match decoded(entry.1) {
                Ok(Some(record)) => archived_records(list.push(entry)) == Ok::<
                    Seq<ArchiveRecord>,
                    ErrorModel,
                >(records.push(record)),
                Ok(None) => false,
                Err(error) => archived_records(list.push(entry)) == Err::<
                    Seq<ArchiveRecord>,
                    ErrorModel,
                >(error),
            }
        },
{
    assert(list.push(entry).drop_last() =~= list);
}

/// The thread of a rollout is that of its first start; without a start there is
/// none. Something was committed where a record is a commit.
pub proof fn the_thread_is_of_the_first_start(records: Seq<ArchiveRecord>, i: int)
    ensures
        0 <= i < records.len() && records[i] is SamplingStarted && (forall|j: int|
            0 <= j < i ==> !(#[trigger] records[j] is SamplingStarted)) ==> sampling_thread(records)
            == Some(records[i]->SamplingStarted_thread@),
        (forall|j: int| 0 <= j < records.len() ==> !(#[trigger] records[j] is SamplingStarted))
            ==> sampling_thread(records) is None,
        0 <= i < records.len() && records[i] is SamplingCommit ==> has_commit(records),
        (forall|j: int| 0 <= j < records.len() ==> !(#[trigger] records[j] is SamplingCommit))
            ==> !has_commit(records),
    decreases records.len(),
{
    if records.len() > 0 {
        let rest = records.drop_last();
        assert forall|j: int| 0 <= j < rest.len() implies rest[j] == #[trigger] records[j] by {}
        the_thread_is_of_the_first_start(rest, i);
        if i == records.len() - 1 && forall|j: int|
            0 <= j < i ==> !(#[trigger] records[j] is SamplingStarted) {
            assert forall|j: int| 0 <= j < rest.len() implies !(#[trigger] rest[j]
                is SamplingStarted) by {
                assert(rest[j] == records[j]);
            }
        }
    }
}

/// Every error says what failed, and why.
pub proof fn errors_say_why(text: Seq<char>, version: u32)
    ensures
        error_text(ErrorModel::Identity(text)) == "invalid Spine identity: "@ + text,
        error_text(ErrorModel::Planner(text)) == "Spine planner failed: "@ + text,
        error_text(ErrorModel::Sampling(text)) == "Spine sampling failed: "@ + text,
        error_text(ErrorModel::Archive(text)) == "Spine archive failed: "@ + text,
        error_text(ErrorModel::Codec(text)) == "Spine rollout codec failed: "@ + text,
        error_text(ErrorModel::ContextPlan(text)) == "Spine context plan failed: "@ + text,
        error_text(ErrorModel::Replay(text)) == "Spine replay failed: "@ + text,
        error_text(ErrorModel::DurabilityFaulted(text)) == "Spine durability is faulted: "@ + text,
        error_text(ErrorModel::UnsupportedVersion(version)) == "unsupported Spine rollout version "@
            + decimal_text(version as nat),
{
}

/// The end of an attempt is committed exactly where a commit was prepared and its
/// context can be sent; the transition holds the prepared record, and the context
/// is the plan's.
pub proof fn an_attempt_ends_with_its_commit(
    prepared: Option<ArchiveRecord>,
    context: Result<PreparedContextPlan, String>,
    i: int,
)
    ensures
        prepared is None <==> finished(prepared, context) is Nothing,
        (prepared matches Some(record) && record is SamplingCommit && context is Ok) <==> finished(
            prepared,
            context,
        ) is Commit,
        finished(prepared, context) matches FinishModel::Commit {
            transition,
            items,
            user_messages,
        } ==> transition.version == 2 && transition.payload == Ok::<ArchiveRecord, PayloadError>(
            prepared->Some_0,
        ) && items.len() == context->Ok_0.items@.len() && (0 <= i < items.len() ==> items[i]
            == context->Ok_0.items@[i]@) && user_messages == projection_views(
            context->Ok_0.user_messages@,
        ),
        (prepared matches Some(record) && record is SamplingCommit) ==> (context matches Err(reason)
            ==> finished(prepared, context) == FinishModel::Discard(
            ErrorModel::ContextPlan(reason@),
        )),
        (prepared matches Some(record) && record is SamplingStarted) ==> (finished(
            prepared,
            context,
        ) matches FinishModel::Discard(ErrorModel::Archive(_))),
{
}

/// A start is recorded exactly where its record is that of a start and the
/// configuration can be written.
pub proof fn a_start_is_recorded(
    record: ArchiveRecord,
    config: String,
    reason: String,
    error: crate::archive::CoordinatorError,
    any: Result<String, String>,
)
    ensures
        start_error(Ok(record), Ok(config)) is None <==> record is SamplingStarted,
        record is SamplingStarted ==> start_error(Ok(record), Err(reason)) == Some(
            ErrorModel::Codec(reason@),
        ),
        start_error(Err(error), any) == Some(error@),
        record is SamplingCommit ==> (start_error(Ok(record), any) matches Some(
            ErrorModel::Archive(_),
        )),
{
}

/// A resumed session takes over the configuration that was recorded last.
pub proof fn the_last_configuration_counts(list: Seq<Numbered>, entry: Numbered)
    ensures
        last_config(Seq::empty()) is None,
        entry.1 matches RolloutEntry::SamplingStarted { sdk_config: Some(config), .. }
            ==> last_config(list.push(entry)) == Some(config@),
        !(entry.1 matches RolloutEntry::SamplingStarted { sdk_config: Some(_), .. }) ==> last_config(
            list.push(entry),
        ) == last_config(list),
{
    assert(list.push(entry).drop_last() =~= list);
}

} // verus!
