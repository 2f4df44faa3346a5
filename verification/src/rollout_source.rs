//! Recorded rollouts as a source of context: which records are in effect after
//! rollbacks, and which messages the user sent.

use crate::history::{
    message_from_response_item, HistoryBody, HistoryItem, MessageRole,
};
use crate::text::same_text;
use vstd::prelude::*;

verus! {

use crate::history::{item_role, item_text, HistoryBodyModel};

/// What a token count says.
#[derive(Clone, Copy, Debug, PartialEq, Eq, Structural)]
pub struct TokenInfo {
    pub input_tokens: i64,
    pub model_context_window: Option<i64>,
}

/// A record of a sampling attempt.
#[derive(Debug, PartialEq, Eq)]
pub enum ArchiveRecord {
    SamplingStarted { thread: String, record: u64 },
    SamplingCommit { thread: String, record: u64 },
}

/// Why the payload of a record could not be read.
#[derive(Debug, PartialEq, Eq)]
pub enum PayloadError {
    Codec(String),
    Archive(String),
}

/// A recorded sampling attempt: the version it was written in, and what its
/// payload decodes to.
#[derive(Debug, PartialEq, Eq)]
pub struct ArchivedRecord {
    pub version: u32,
    pub payload: Result<ArchiveRecord, PayloadError>,
}

/// An item of an initialization seed, with the host's classification.
#[derive(Debug, PartialEq, Eq)]
pub struct SeedSource {
    pub item: HistoryItem,
    pub contextual: bool,
}

/// The barrier that a compaction puts into the source.
#[derive(Debug, PartialEq, Eq)]
pub struct CompactBarrier {
    pub thread: String,
    pub epoch: u64,
    pub next_epoch: u64,
    pub boundary: u64,
    pub replacement_boundaries: Vec<u64>,
}

/// What preceded the first recorded sampling attempt.
#[allow(inconsistent_fields)]
#[derive(Debug, PartialEq, Eq)]
pub enum ReplaySeedItem {
    /// A source item; `None` where the seed holds something else there.
    Source { boundary: u64, item: Option<SeedSource> },
    Compact { barrier: CompactBarrier, replacement: Vec<Option<HistoryItem>> },
    Usage { boundary: u64, input_tokens: i64, model_context_window: Option<i64> },
}

/// A record of a rollout.
#[derive(Debug, PartialEq, Eq)]
pub enum RolloutEntry {
    /// An item of the history. The host says whether its content is context,
    /// and whether it begins a turn of the user.
    ResponseItem { item: HistoryItem, contextual: bool, turn_boundary: bool },
    /// A message from another agent, as the model sees it.
    InterAgentCommunication { item: HistoryItem, contextual: bool },
    Compacted { message: String, replacement_history: Option<Vec<HistoryItem>> },
    TokenCount { info: Option<TokenInfo> },
    ThreadRolledBack { num_turns: u32 },
    /// The start of a sampling attempt, with the configuration in force and, on
    /// the first one, what preceded it.
    SamplingStarted {
        record: ArchivedRecord,
        sdk_config: Option<String>,
        replay_seed: Option<Result<Vec<ReplaySeedItem>, String>>,
    },
    Transition { record: ArchivedRecord },
    Other,
}

/// Whether a record is part of the source.
pub open spec fn is_source(entry: RolloutEntry) -> bool {
    entry is ResponseItem || entry is InterAgentCommunication || entry is Compacted
}

/// Whether a record is kept beside the source.
pub open spec fn is_kept(entry: RolloutEntry) -> bool {
    is_source(entry) || entry is TokenCount || entry is SamplingStarted || entry is Transition
}

/// Whether a record begins a turn.
pub open spec fn begins_turn(entry: RolloutEntry) -> bool {
    match entry {
        RolloutEntry::ResponseItem { turn_boundary, .. } => turn_boundary,
        RolloutEntry::InterAgentCommunication { .. } => true,
        _ => false,
    }
}

/// Whether a record is a contextual update from the user or the developer.
pub open spec fn is_context_update(entry: RolloutEntry) -> bool {
    match entry {
        RolloutEntry::ResponseItem { item, contextual, .. } => match item@.body {
            HistoryBodyModel::Message { role, .. } => contextual && (role == "developer"@ || role
                == "user"@),
            _ => false,
        },
        _ => false,
    }
}

pub fn is_spine_source_item(entry: &RolloutEntry) -> (r: bool)
    ensures
        r == is_source(*entry),
{
    match entry {
        RolloutEntry::ResponseItem { .. } => true,
        RolloutEntry::InterAgentCommunication { .. } => true,
        RolloutEntry::Compacted { .. } => true,
        _ => false,
    }
}

fn is_kept_entry(entry: &RolloutEntry) -> (r: bool)
    ensures
        r == is_kept(*entry),
{
    match entry {
        RolloutEntry::ThreadRolledBack { .. } => false,
        RolloutEntry::Other => false,
        _ => true,
    }
}

fn is_turn_start(entry: &RolloutEntry) -> (r: bool)
    ensures
        r == begins_turn(*entry),
{
    match entry {
        RolloutEntry::ResponseItem { turn_boundary, .. } => *turn_boundary,
        RolloutEntry::InterAgentCommunication { .. } => true,
        _ => false,
    }
}

fn is_update(entry: &RolloutEntry) -> (r: bool)
    ensures
        r == is_context_update(*entry),
{
    match entry {
        RolloutEntry::ResponseItem { item, contextual, .. } => match &item.body {
            HistoryBody::Message { role, .. } => *contextual && (same_text(
                role.as_str(),
                "developer",
            ) || same_text(role.as_str(), "user")),
            _ => false,
        },
        _ => false,
    }
}

/// Records with their source ordinals.
pub type Numbered = (usize, RolloutEntry);

/// The records behind a list of references.
pub open spec fn entries(list: Seq<(usize, &RolloutEntry)>) -> Seq<Numbered> {
    list.map_values(|p: (usize, &RolloutEntry)| (p.0, *p.1))
}

/// How many records are part of the source.
pub open spec fn source_count(rollout: Seq<RolloutEntry>) -> nat
    decreases rollout.len(),
{
    if rollout.len() == 0 {
        0
    } else {
        source_count(rollout.drop_last()) + if is_source(rollout.last()) {
            1nat
        } else {
            0nat
        }
    }
}

/// The records of a rollout, each with the number of source records before it.
pub open spec fn numbered(rollout: Seq<RolloutEntry>) -> Seq<Numbered>
    decreases rollout.len(),
{
    if rollout.len() == 0 {
        Seq::empty()
    } else {
        numbered(rollout.drop_last()).push(
            (source_count(rollout.drop_last()) as usize, rollout.last()),
        )
    }
}

/// The places at which turns begin.
pub open spec fn turn_starts(list: Seq<Numbered>) -> Seq<int>
    decreases list.len(),
{
    if list.len() == 0 {
        Seq::empty()
    } else if begins_turn(list.last().1) {
        turn_starts(list.drop_last()).push(list.len() - 1)
    } else {
        turn_starts(list.drop_last())
    }
}

/// The list without the contextual updates at its end. Token counts among them
/// stay, and nothing before `first` is touched.
pub open spec fn without_updates(list: Seq<Numbered>, first: int) -> Seq<Numbered>
    decreases list.len(),
{
    if list.len() == 0 || list.len() <= first {
        list
    } else if is_context_update(list.last().1) {
        without_updates(list.drop_last(), first)
    } else if list.last().1 is TokenCount {
        without_updates(list.drop_last(), first).push(list.last())
    } else {
        list
    }
}

/// What is left when the last `turns` turns are rolled back: all that stood
/// before the first of them, without the contextual updates just above it.
pub open spec fn rolled_back(list: Seq<Numbered>, turns: nat) -> Seq<Numbered> {
    let starts = turn_starts(list);
    if turns == 0 || starts.len() == 0 {
        list
    } else {
        let cut = if turns <= starts.len() {
            starts[starts.len() - turns]
        } else {
            starts[0]
        };
        without_updates(list.take(cut), starts[0])
    }
}

/// The records in effect.
pub open spec fn effective(source: Seq<Numbered>) -> Seq<Numbered>
    decreases source.len(),
{
    if source.len() == 0 {
        Seq::empty()
    } else {
        let before = effective(source.drop_last());
        match source.last().1 {
            RolloutEntry::ThreadRolledBack { num_turns } => rolled_back(before, num_turns as nat),
            entry => if is_kept(entry) {
                before.push(source.last())
            } else {
                before
            },
        }
    }
}

/// The places are in range and in order.
proof fn lemma_starts(list: Seq<Numbered>)
    ensures
        turn_starts(list).len() <= list.len(),
        forall|k: int|
            0 <= k < turn_starts(list).len() ==> 0 <= #[trigger] turn_starts(list)[k] < list.len()
                && begins_turn(list[turn_starts(list)[k]].1),
        forall|j: int, k: int|
            0 <= j < k < turn_starts(list).len() ==> #[trigger] turn_starts(list)[j]
                < #[trigger] turn_starts(list)[k],
    decreases list.len(),
{
    if list.len() > 0 {
        lemma_starts(list.drop_last());
    }
}

fn starts_of(list: &Vec<(usize, &RolloutEntry)>) -> (r: Vec<usize>)
    ensures
        r@.len() == turn_starts(entries(list@)).len(),
        forall|k: int| 0 <= k < r@.len() ==> #[trigger] r@[k] == turn_starts(entries(list@))[k],
{
    let ghost all = entries(list@);
    let mut starts: Vec<usize> = Vec::new();
    let mut i: usize = 0;
    assert(all.take(0) =~= Seq::empty());
    while i < list.len()
        invariant
            i <= list@.len(),
            all == entries(list@),
            starts@.len() == turn_starts(all.take(i as int)).len(),
            forall|k: int|
                0 <= k < starts@.len() ==> #[trigger] starts@[k] == turn_starts(
                    all.take(i as int),
                )[k],
        decreases list@.len() - i,
    {
        proof {
            let upto = all.take(i + 1);
            assert(upto.drop_last() =~= all.take(i as int));
            assert(upto.last() == all[i as int]);
        }
        if is_turn_start(list[i].1) {
            starts.push(i);
        }
        i = i + 1;
    }
    assert(all.take(i as int) =~= all);
    starts
}

fn roll_back<'a>(list: Vec<(usize, &'a RolloutEntry)>, turns: usize) -> (r: Vec<
    (usize, &'a RolloutEntry),
>)
    ensures
        entries(r@) == rolled_back(entries(list@), turns as nat),
{
    if turns == 0 {
        return list;
    }
    let ghost all = entries(list@);
    let starts = starts_of(&list);
    if starts.len() == 0 {
        return list;
    }
    proof {
        lemma_starts(all);
    }
    let mut list = list;
    let first = starts[0];
    let cut = if turns <= starts.len() {
        starts[starts.len() - turns]
    } else {
        first
    };
    assert(cut == turn_starts(all)[if turns <= starts.len() {
        starts.len() - turns
    } else {
        0
    }]);
    list.truncate(cut);
    let ghost kept = all.take(cut as int);
    assert(entries(list@) =~= kept);
    let mut scan: usize = list.len();
    proof {
        assert(entries(list@).take(scan as int) =~= entries(list@));
        assert(entries(list@).skip(scan as int) =~= Seq::empty());
        assert(without_updates(kept, first as int) + Seq::<Numbered>::empty() =~= without_updates(
            kept,
            first as int,
        ));
    }
    let mut done = false;
    while scan > first && !done
        invariant
            scan <= list@.len(),
            !done ==> without_updates(kept, first as int) == without_updates(
                entries(list@).take(scan as int),
                first as int,
            ) + entries(list@).skip(scan as int),
            done ==> without_updates(kept, first as int) == entries(list@),
        decreases
                if done {
                    0int
                } else {
                    scan + 1
                },
    {
        let ghost before = entries(list@);
        let ghost head = before.take(scan as int);
        let ghost tail = before.skip(scan as int);
        proof {
            assert(head.last() == before[scan - 1]);
            assert(head.drop_last() =~= before.take(scan - 1));
        }
        if is_update(list[scan - 1].1) {
            list.remove(scan - 1);
            scan = scan - 1;
            proof {
                assert(entries(list@).take(scan as int) =~= head.drop_last());
                assert(entries(list@).skip(scan as int) =~= tail);
            }
        } else if let RolloutEntry::TokenCount { .. } = list[scan - 1].1 {
            scan = scan - 1;
            proof {
                let rest = without_updates(head.drop_last(), first as int);
                assert(rest.push(head.last()) + tail =~= rest + before.skip(scan as int));
            }
        } else {
            done = true;
            proof {
                assert(head + tail =~= before);
            }
        }
    }
    proof {
        if !done {
            let all_now = entries(list@);
            assert(all_now.take(scan as int) + all_now.skip(scan as int) =~= all_now);
        }
    }
    list
}

/// The records in effect of records that carry their source ordinals.
pub fn effective_rollout_from_source<'a>(source: &Vec<(usize, &'a RolloutEntry)>) -> (r: Vec<
    (usize, &'a RolloutEntry),
>)
    ensures
        entries(r@) == effective(entries(source@)),
{
    let ghost all = entries(source@);
    let mut kept: Vec<(usize, &'a RolloutEntry)> = Vec::new();
    let mut i: usize = 0;
    proof {
        assert(all.take(0) =~= Seq::empty());
        assert(entries(kept@) =~= Seq::empty());
    }
    while i < source.len()
        invariant
            i <= source@.len(),
            all == entries(source@),
            entries(kept@) == effective(all.take(i as int)),
        decreases source@.len() - i,
    {
        proof {
            let upto = all.take(i + 1);
            assert(upto.drop_last() =~= all.take(i as int));
            assert(upto.last() == all[i as int]);
        }
        let (ordinal, entry) = source[i];
        if let RolloutEntry::ThreadRolledBack { num_turns } = entry {
            kept = roll_back(kept, *num_turns as usize);
        } else if is_kept_entry(entry) {
            let ghost before = entries(kept@);
            kept.push((ordinal, entry));
            assert(entries(kept@) =~= before.push(all[i as int]));
        }
        i = i + 1;
    }
    assert(all.take(i as int) =~= all);
    kept
}

proof fn lemma_source_count(rollout: Seq<RolloutEntry>)
    ensures
        source_count(rollout) <= rollout.len(),
    decreases rollout.len(),
{
    if rollout.len() > 0 {
        lemma_source_count(rollout.drop_last());
    }
}

/// The records in effect of a rollout, each with its source ordinal.
pub fn effective_rollout<'a>(rollout: &'a Vec<RolloutEntry>) -> (r: Vec<(usize, &'a RolloutEntry)>)
    ensures
        entries(r@) == effective(numbered(rollout@)),
{
    let mut source: Vec<(usize, &'a RolloutEntry)> = Vec::new();
    let mut ordinal: usize = 0;
    let mut i: usize = 0;
    proof {
        assert(rollout@.take(0) =~= Seq::empty());
        assert(entries(source@) =~= Seq::empty());
    }
    while i < rollout.len()
        invariant
            i <= rollout@.len(),
            ordinal <= i,
            ordinal == source_count(rollout@.take(i as int)),
            entries(source@) == numbered(rollout@.take(i as int)),
        decreases rollout@.len() - i,
    {
        proof {
            let upto = rollout@.take(i + 1);
            assert(upto.drop_last() =~= rollout@.take(i as int));
            assert(upto.last() == rollout@[i as int]);
        }
        let ghost before = entries(source@);
        source.push((ordinal, &rollout[i]));
        assert(entries(source@) =~= before.push((ordinal, rollout@[i as int])));
        if is_spine_source_item(&rollout[i]) {
            ordinal = ordinal + 1;
        }
        i = i + 1;
    }
    assert(rollout@.take(i as int) =~= rollout@);
    effective_rollout_from_source(&source)
}

/// Where the last sampling attempt begins; -1 where there is none.
pub open spec fn last_sampling(items: Seq<RolloutEntry>) -> int
    decreases items.len(),
{
    if items.len() == 0 {
        -1
    } else if items.last() is SamplingStarted {
        items.len() - 1
    } else {
        last_sampling(items.drop_last())
    }
}

/// Whether the last sampling attempt was not committed.
pub open spec fn sampling_is_open(items: Seq<RolloutEntry>) -> bool {
    let start = last_sampling(items);
    start >= 0 && forall|i: int|
        start < i < items.len() ==> !(#[trigger] items[i] is Transition)
}

proof fn lemma_last_sampling(items: Seq<RolloutEntry>)
    ensures
        -1 <= last_sampling(items) < items.len(),
    decreases items.len(),
{
    if items.len() > 0 {
        lemma_last_sampling(items.drop_last());
    }
}

/// Cuts the records after the start of the last sampling attempt, unless that
/// attempt was committed or there is none. The answer is whether it did.
pub fn truncate_to_current_sampling_start(items: &mut Vec<RolloutEntry>) -> (r: bool)
    ensures
        r == sampling_is_open(old(items)@),
        final(items)@ == if r {
            old(items)@.take(last_sampling(old(items)@) + 1)
        } else {
            old(items)@
        },
{
    let ghost all = items@;
    let mut n: usize = items.len();
    assert(all.take(n as int) =~= all);
    proof {
        lemma_last_sampling(all);
    }
    while n > 0
        invariant
            n <= items@.len(),
            items@ == all,
            all == old(items)@,
            -1 <= last_sampling(all) < all.len(),
            last_sampling(all) == last_sampling(all.take(n as int)),
            forall|i: int| n <= i < all.len() ==> !(#[trigger] all[i] is Transition),
        decreases n,
    {
        proof {
            let upto = all.take(n as int);
            assert(upto.last() == all[n - 1]);
            assert(upto.drop_last() =~= all.take(n - 1));
            if all[n - 1] is Transition {
                lemma_last_sampling(upto.drop_last());
            }
        }
        match &items[n - 1] {
            RolloutEntry::SamplingStarted { .. } => {
                assert(last_sampling(all) == n - 1);
                items.truncate(n);
                return true;
            },
            RolloutEntry::Transition { .. } => {
                assert(last_sampling(all) < n - 1);
                return false;
            },
            _ => {},
        }
        n = n - 1;
    }
    false
}

/// One message of the user, by its anchor.
#[derive(Debug, PartialEq, Eq)]
pub struct SpinetreeUserMessageProjectionEntry {
    pub anchor: u64,
    pub body: String,
}

impl View for SpinetreeUserMessageProjectionEntry {
    type V = (u64, Seq<char>);

    open spec fn view(&self) -> (u64, Seq<char>) {
        (self.anchor, self.body@)
    }
}

pub open spec fn projection_views(
    projected: Seq<SpinetreeUserMessageProjectionEntry>,
) -> Seq<(u64, Seq<char>)> {
    projected.map_values(|e: SpinetreeUserMessageProjectionEntry| e@)
}

/// The same messages of the user.
pub fn copy_user_messages(list: &Vec<SpinetreeUserMessageProjectionEntry>) -> (r: Vec<
    SpinetreeUserMessageProjectionEntry,
>)
    ensures
        projection_views(r@) == projection_views(list@),
{
    let mut copies: Vec<SpinetreeUserMessageProjectionEntry> = Vec::new();
    let mut i: usize = 0;
    while i < list.len()
        invariant
            i <= list@.len(),
            projection_views(copies@) =~= projection_views(list@).take(i as int),
        decreases list@.len() - i,
    {
        let entry = SpinetreeUserMessageProjectionEntry {
            anchor: list[i].anchor,
            body: String::from_str(list[i].body.as_str()),
        };
        let ghost before = projection_views(copies@);
        assert(entry@ == projection_views(list@)[i as int]);
        copies.push(entry);
        assert(projection_views(copies@) =~= before.push(entry@));
        i = i + 1;
    }
    assert(projection_views(copies@) =~= projection_views(list@));
    copies
}

/// What the user said, numbered from one.
pub open spec fn user_messages(list: Seq<Numbered>) -> Seq<(u64, Seq<char>)>
    decreases list.len(),
{
    if list.len() == 0 {
        Seq::empty()
    } else {
        let before = user_messages(list.drop_last());
        match list.last().1 {
            RolloutEntry::ResponseItem { item, contextual, .. } => if item_role(item@, contextual)
                == MessageRole::User {
                before.push(((before.len() + 1) as u64, item_text(item@)))
            } else {
                before
            },
            _ => before,
        }
    }
}

proof fn lemma_user_messages(list: Seq<Numbered>)
    ensures
        user_messages(list).len() <= list.len(),
    decreases list.len(),
{
    if list.len() > 0 {
        lemma_user_messages(list.drop_last());
    }
}

pub fn user_message_projection_entries_from_effective(list: &Vec<(usize, &RolloutEntry)>) -> (r:
    Vec<SpinetreeUserMessageProjectionEntry>)
    ensures
        projection_views(r@) == user_messages(entries(list@)),
{
    let ghost all = entries(list@);
    let mut said: Vec<SpinetreeUserMessageProjectionEntry> = Vec::new();
    let mut i: usize = 0;
    proof {
        assert(all.take(0) =~= Seq::empty());
        assert(projection_views(said@) =~= Seq::empty());
    }
    while i < list.len()
        invariant
            i <= list@.len(),
            all == entries(list@),
            said@.len() <= i,
            projection_views(said@) == user_messages(all.take(i as int)),
        decreases list@.len() - i,
    {
        proof {
            let upto = all.take(i + 1);
            assert(upto.drop_last() =~= all.take(i as int));
            assert(upto.last() == all[i as int]);
        }
        if let RolloutEntry::ResponseItem { item, contextual, .. } = list[i].1 {
            let message = message_from_response_item(list[i].0 as u64, item, *contextual);
            if message.role == MessageRole::User {
                let ghost before = projection_views(said@);
                let next_anchor = said.len() as u64 + 1;
                said.push(
                    SpinetreeUserMessageProjectionEntry {
                        anchor: next_anchor,
                        body: message.content,
                    },
                );
                assert(projection_views(said@) =~= before.push(
                    (next_anchor, item_text(item@)),
                ));
            }
        }
        i = i + 1;
    }
    assert(all.take(i as int) =~= all);
    said
}

/// What the user said in the records of a rollout that are in effect.
pub fn user_message_projection_entries(rollout: &Vec<RolloutEntry>) -> (r: Vec<
    SpinetreeUserMessageProjectionEntry,
>)
    ensures
        projection_views(r@) == user_messages(effective(numbered(rollout@))),
{
    user_message_projection_entries_from_effective(&effective_rollout(rollout))
}

} // verus!
