//! Replaying a rollout from its records: what is fed to the sampling runtime,
//! and which items its source cells stand for.

use crate::archive::{decode_spine_rollout_item, CoordinatorError};
use crate::history::{
    copy_items, response_item_to_char_and_source, ContentItem, HistoryBody, HistoryItem, SpineChar,
};
use crate::rollout_source::{ArchiveRecord, CompactBarrier, ReplaySeedItem, RolloutEntry};
use crate::text::same_text;
use vstd::prelude::*;

verus! {

use crate::archive::{decoded, ErrorModel};
use crate::history::{
    content_models, item_char, item_models, item_source, CharModel, ContentModel, HistoryBodyModel,
    HistoryModel,
};
use crate::rollout_source::{entries, Numbered};
use crate::shapes::text_view;

/// One thing fed to the runtime.
#[derive(Debug, PartialEq, Eq)]
#[allow(inconsistent_fields)]
pub enum ReplayInput {
    Source(SpineChar),
    Compact(CompactBarrier),
    Usage { boundary: u64, input_tokens: i64 },
    Archive(ArchiveRecord),
}

/// The model of a [`CompactBarrier`].
#[verifier::ext_equal]
pub ghost struct BarrierModel {
    pub thread: Seq<char>,
    pub epoch: u64,
    pub next_epoch: u64,
    pub boundary: u64,
    pub replacement_boundaries: Seq<u64>,
}

impl View for CompactBarrier {
    type V = BarrierModel;

    open spec fn view(&self) -> BarrierModel {
        BarrierModel {
            thread: self.thread@,
            epoch: self.epoch,
            next_epoch: self.next_epoch,
            boundary: self.boundary,
            replacement_boundaries: self.replacement_boundaries@,
        }
    }
}

/// The model of a [`ReplayInput`].
#[verifier::ext_equal]
#[allow(inconsistent_fields)]
pub ghost enum InputModel {
    Source(CharModel),
    Compact(BarrierModel),
    Usage { boundary: u64, input_tokens: i64 },
    Archive(ArchiveRecord),
}

impl View for ReplayInput {
    type V = InputModel;

    open spec fn view(&self) -> InputModel {
        match *self {
            ReplayInput::Source(character) => InputModel::Source(character@),
            ReplayInput::Compact(barrier) => InputModel::Compact(barrier@),
            ReplayInput::Usage { boundary, input_tokens } => InputModel::Usage {
                boundary,
                input_tokens,
            },
            ReplayInput::Archive(record) => InputModel::Archive(record),
        }
    }
}

/// The model of a [`ReplaySeedItem`].
#[verifier::ext_equal]
#[allow(inconsistent_fields)]
pub ghost enum SeedModel {
    Source { boundary: u64, item: Option<(HistoryModel, bool)> },
    Compact { barrier: BarrierModel, replacement: Seq<Option<HistoryModel>> },
    Usage { boundary: u64, input_tokens: i64, model_context_window: Option<i64> },
}

/// The models of a seeded replacement.
pub open spec fn replacement_models(items: Seq<Option<HistoryItem>>) -> Seq<Option<HistoryModel>> {
    items.map_values(
        |i: Option<HistoryItem>|
            match i {
                Some(item) => Some(item@),
                None => None,
            },
    )
}

impl View for ReplaySeedItem {
    type V = SeedModel;

    open spec fn view(&self) -> SeedModel {
        match *self {
            ReplaySeedItem::Source { boundary, item } => SeedModel::Source {
                boundary,
                item: match item {
                    Some(source) => Some((source.item@, source.contextual)),
                    None => None,
                },
            },
            ReplaySeedItem::Compact { barrier, replacement } => SeedModel::Compact {
                barrier: barrier@,
                replacement: replacement_models(replacement@),
            },
            ReplaySeedItem::Usage { boundary, input_tokens, model_context_window } => {
                SeedModel::Usage { boundary, input_tokens, model_context_window }
            },
        }
    }
}

pub open spec fn seed_models(seed: Seq<ReplaySeedItem>) -> Seq<SeedModel> {
    seed.map_values(|i: ReplaySeedItem| i@)
}

pub open spec fn input_models(inputs: Seq<ReplayInput>) -> Seq<InputModel> {
    inputs.map_values(|i: ReplayInput| i@)
}

/// The context window at a place of the source.
#[derive(Clone, Copy, Debug, PartialEq, Eq, Structural)]
pub struct ContextWindowSample {
    pub boundary: u64,
    pub model_context_window: i64,
}

/// A replay: what is fed to the runtime, and the state that it leaves.
#[derive(Debug, PartialEq, Eq)]
pub struct ReplayPlan {
    pub inputs: Vec<ReplayInput>,
    pub epoch: u64,
    /// The items that the source cells of the last epoch stand for.
    pub projected: Vec<HistoryItem>,
    pub next_boundary: u64,
    pub context_window_samples: Vec<ContextWindowSample>,
    /// The thread that new barriers belong to.
    pub thread: String,
    /// How many records have been used up.
    pub used: usize,
}

/// The model of a [`ReplayPlan`].
#[verifier::ext_equal]
pub ghost struct PlanModel {
    pub inputs: Seq<InputModel>,
    pub epoch: u64,
    pub projected: Seq<HistoryModel>,
    pub next_boundary: u64,
    pub samples: Seq<ContextWindowSample>,
    pub thread: Seq<char>,
    pub used: int,
}

impl View for ReplayPlan {
    type V = PlanModel;

    open spec fn view(&self) -> PlanModel {
        PlanModel {
            inputs: input_models(self.inputs@),
            epoch: self.epoch,
            projected: item_models(self.projected@),
            next_boundary: self.next_boundary,
            samples: self.context_window_samples@,
            thread: self.thread@,
            used: self.used as int,
        }
    }
}

/// The next boundary; the last one has none.
pub open spec fn next_place(boundary: u64) -> u64 {
    if boundary == u64::MAX {
        boundary
    } else {
        (boundary + 1) as u64
    }
}

/// The place of the `i`th replacement of what is compacted at a boundary.
pub open spec fn replacement_place(boundary: u64, i: int) -> u64 {
    if boundary + i + 1 <= u64::MAX {
        (boundary + i + 1) as u64
    } else {
        u64::MAX
    }
}

/// The places of the replacements.
pub open spec fn replacement_places(boundary: u64, count: nat) -> Seq<u64> {
    Seq::new(count, |i: int| replacement_place(boundary, i))
}

/// The boundary after a compaction.
pub open spec fn after_places(boundary: u64, places: Seq<u64>) -> u64 {
    next_place(
        if places.len() == 0 {
            boundary
        } else {
            places.last()
        },
    )
}

/// The persisted item with an identity, the last one where there are several.
pub open spec fn persisted(list: Seq<Numbered>, id: Seq<char>) -> Option<HistoryModel>
    decreases list.len(),
{
    if list.len() == 0 {
        None
    } else {
        match list.last().1 {
            RolloutEntry::ResponseItem { item, .. } => if text_view(item.id) == Some(id) {
                Some(item@)
            } else {
                persisted(list.drop_last(), id)
            },
            _ => persisted(list.drop_last(), id),
        }
    }
}

/// The item that a seeded source cell stands for. An opaque one is as it was
/// persisted.
pub open spec fn seeded_item(list: Seq<Numbered>, item: HistoryModel) -> HistoryModel {
    let opaque = !(item.body is Message || item.body is Reasoning);
    match (opaque, item.id) {
        (true, Some(id)) => match persisted(list, id) {
            Some(found) => found,
            None => item_source(item),
        },
        _ => item_source(item),
    }
}

/// The error of a seed that holds something other than an item.
pub open spec fn seed_error() -> ErrorModel {
    ErrorModel::Replay("initialization seed source must contain a response item"@)
}

/// The items of a seeded replacement.
pub open spec fn seeded_replacement(items: Seq<Option<HistoryModel>>) -> Result<
    Seq<HistoryModel>,
    ErrorModel,
>
    decreases items.len(),
{
    if items.len() == 0 {
        Ok(Seq::empty())
    } else {
        match (seeded_replacement(items.drop_last()), items.last()) {
            (Err(error), _) => Err(error),
            (Ok(_), None) => Err(seed_error()),
            (Ok(before), Some(item)) => Ok(before.push(item)),
        }
    }
}

/// Taking in one item of the seed. `list` is what precedes the first sampling
/// attempt.
pub open spec fn seeded(m: PlanModel, list: Seq<Numbered>, item: SeedModel) -> Result<
    PlanModel,
    ErrorModel,
> {
    match item {
        SeedModel::Source { boundary, item } => match item {
            None => Err(seed_error()),
            Some((source, contextual)) => Ok(
                PlanModel {
                    inputs: m.inputs.push(
                        InputModel::Source(item_char(source, contextual, boundary)),
                    ),
                    projected: m.projected.push(seeded_item(list, source)),
                    next_boundary: next_place(boundary),
                    ..m
                },
            ),
        },
        SeedModel::Compact { barrier, replacement } => match seeded_replacement(
            replacement,
        ) {
            Err(error) => Err(error),
            Ok(items) => Ok(
                PlanModel {
                    inputs: m.inputs.push(InputModel::Compact(barrier)),
                    epoch: barrier.next_epoch,
                    projected: items,
                    next_boundary: after_places(
                        barrier.boundary,
                        barrier.replacement_boundaries,
                    ),
                    ..m
                },
            ),
        },
        SeedModel::Usage { boundary, input_tokens, model_context_window } => Ok(
            PlanModel {
                inputs: m.inputs.push(InputModel::Usage { boundary, input_tokens }),
                samples: match model_context_window {
                    Some(model_context_window) => m.samples.push(
                        ContextWindowSample { boundary, model_context_window },
                    ),
                    None => m.samples,
                },
                ..m
            },
        ),
    }
}

/// Taking in a source item.
pub open spec fn sourced(m: PlanModel, item: HistoryModel, contextual: bool) -> PlanModel {
    PlanModel {
        inputs: m.inputs.push(
            InputModel::Source(item_char(item, contextual, m.next_boundary)),
        ),
        projected: m.projected.push(item_source(item)),
        next_boundary: next_place(m.next_boundary),
        ..m
    }
}

/// The item that stands for a compacted history that nothing replaced.
pub open spec fn summary_item(message: Seq<char>) -> HistoryModel {
    HistoryModel {
        id: None,
        payload: None,
        body: HistoryBodyModel::Message {
            role: "assistant"@,
            content: seq![ContentModel::OutputText { text: message }],
        },
    }
}

/// What replaced a compacted history.
pub open spec fn replacement_items(
    message: Seq<char>,
    replacement: Option<Vec<HistoryItem>>,
) -> Seq<HistoryModel> {
    match replacement {
        Some(items) => item_models(items@),
        None => seq![summary_item(message)],
    }
}

/// Taking in a compaction.
pub open spec fn compacted(m: PlanModel, items: Seq<HistoryModel>) -> Result<
    PlanModel,
    ErrorModel,
> {
    if m.epoch == u64::MAX {
        Err(ErrorModel::Replay("Spine replay epoch exhausted"@))
    } else {
        let places = replacement_places(m.next_boundary, items.len());
        let next_epoch = (m.epoch + 1) as u64;
        Ok(
            PlanModel {
                inputs: m.inputs.push(
                    InputModel::Compact(
                        BarrierModel {
                            thread: m.thread,
                            epoch: m.epoch,
                            next_epoch,
                            boundary: m.next_boundary,
                            replacement_boundaries: places,
                        },
                    ),
                ),
                epoch: next_epoch,
                projected: items,
                next_boundary: after_places(m.next_boundary, places),
                ..m
            },
        )
    }
}

/// Taking in a record.
pub open spec fn recorded(m: PlanModel, records: Seq<ArchiveRecord>) -> Result<
    PlanModel,
    ErrorModel,
> {
    if m.used < records.len() {
        let record = records[m.used];
        Ok(
            PlanModel {
                inputs: m.inputs.push(InputModel::Archive(record)),
                thread: match record {
                    ArchiveRecord::SamplingCommit { thread, .. } => thread@,
                    _ => m.thread,
                },
                used: m.used + 1,
                ..m
            },
        )
    } else {
        Err(ErrorModel::Replay("canonical replay record order diverged"@))
    }
}

/// Taking in one entry of the rollout.
pub open spec fn replayed(m: PlanModel, entry: RolloutEntry, records: Seq<ArchiveRecord>) -> Result<
    PlanModel,
    ErrorModel,
> {
    match entry {
        RolloutEntry::ResponseItem { item, contextual, .. } => Ok(sourced(m, item@, contextual)),
        RolloutEntry::InterAgentCommunication { item, contextual } => Ok(
            sourced(m, item@, contextual),
        ),
        RolloutEntry::SamplingStarted { .. } | RolloutEntry::Transition { .. } => match decoded(
            entry,
        ) {
            Err(error) => Err(error),
            Ok(_) => recorded(m, records),
        },
        RolloutEntry::Compacted { message, replacement_history } => compacted(
            m,
            replacement_items(message@, replacement_history),
        ),
        RolloutEntry::TokenCount { info: Some(info) } => Ok(
            PlanModel {
                inputs: m.inputs.push(
                    InputModel::Usage {
                        boundary: m.next_boundary,
                        input_tokens: info.input_tokens,
                    },
                ),
                samples: match info.model_context_window {
                    Some(model_context_window) => m.samples.push(
                        ContextWindowSample { boundary: m.next_boundary, model_context_window },
                    ),
                    None => m.samples,
                },
                ..m
            },
        ),
        _ => Ok(m),
    }
}

/// Taking in the whole seed.
pub open spec fn seeded_all(m: PlanModel, list: Seq<Numbered>, seed: Seq<SeedModel>) -> Result<
    PlanModel,
    ErrorModel,
>
    decreases seed.len(),
{
    if seed.len() == 0 {
        Ok(m)
    } else {
        match seeded_all(m, list, seed.drop_last()) {
            Err(error) => Err(error),
            Ok(before) => seeded(before, list, seed.last()),
        }
    }
}

/// Taking in entries.
pub open spec fn replayed_all(
    m: PlanModel,
    list: Seq<Numbered>,
    records: Seq<ArchiveRecord>,
) -> Result<PlanModel, ErrorModel>
    decreases list.len(),
{
    if list.len() == 0 {
        Ok(m)
    } else {
        match replayed_all(m, list.drop_last(), records) {
            Err(error) => Err(error),
            Ok(before) => replayed(before, list.last().1, records),
        }
    }
}

/// The replay before anything is taken in.
pub open spec fn fresh(thread: Seq<char>) -> PlanModel {
    PlanModel {
        inputs: Seq::empty(),
        epoch: 0,
        projected: Seq::empty(),
        next_boundary: 0,
        samples: Seq::empty(),
        thread,
        used: 0,
    }
}

/// Where the first sampling attempt begins; the length where there is none.
pub open spec fn first_sampling(list: Seq<Numbered>) -> int
    decreases list.len(),
{
    if list.len() == 0 {
        0
    } else if first_sampling(list.drop_last()) < list.len() - 1 {
        first_sampling(list.drop_last())
    } else if list.last().1 is SamplingStarted {
        list.len() - 1
    } else {
        list.len() as int
    }
}

/// The seed of the first sampling attempt.
pub open spec fn seed_of(list: Seq<Numbered>) -> Option<Result<Vec<ReplaySeedItem>, String>> {
    let at = first_sampling(list);
    if at < list.len() {
        match list[at].1 {
            RolloutEntry::SamplingStarted { replay_seed, .. } => replay_seed,
            _ => None,
        }
    } else {
        None
    }
}

/// The replay of a rollout in effect. Where the first sampling attempt carries
/// a seed, that stands for all that precedes the attempt.
pub open spec fn replay_of(list: Seq<Numbered>, thread: Seq<char>, records: Seq<ArchiveRecord>)
    -> Result<PlanModel, ErrorModel> {
    match seed_of(list) {
        Some(Err(error)) => Err(
            ErrorModel::Replay("invalid initialization seed: "@ + error@),
        ),
        Some(Ok(seed)) => {
            let at = first_sampling(list);
            match seeded_all(fresh(thread), list.take(at), seed_models(seed@)) {
                Err(error) => Err(error),
                Ok(start) => replayed_all(start, list.skip(at), records),
            }
        },
        None => replayed_all(fresh(thread), list, records),
    }
}

fn seed_failure() -> (r: CoordinatorError)
    ensures
        r@ == seed_error(),
{
    CoordinatorError::Replay(
        "initialization seed source must contain a response item".to_owned(),
    )
}

fn find_persisted<'a>(list: &Vec<(usize, &'a RolloutEntry)>, upto: usize, id: &str) -> (r: Option<
    &'a HistoryItem,
>)
    requires
        upto <= list@.len(),
    ensures
        match r {
            Some(item) => persisted(entries(list@).take(upto as int), id@) == Some(item@),
            None => persisted(entries(list@).take(upto as int), id@) is None,
        },
{
    let ghost all = entries(list@);
    let mut n: usize = upto;
    while n > 0
        invariant
            n <= upto <= list@.len(),
            all == entries(list@),
            persisted(all.take(upto as int), id@) == persisted(all.take(n as int), id@),
        decreases n,
    {
        proof {
            let part = all.take(n as int);
            assert(part.last() == all[n - 1]);
            assert(part.drop_last() =~= all.take(n - 1));
        }
        if let RolloutEntry::ResponseItem { item, .. } = list[n - 1].1 {
            if let Some(found) = &item.id {
                if same_text(found.as_str(), id) {
                    return Some(item);
                }
            }
        }
        n = n - 1;
    }
    None
}

/// The places of the replacements of what is compacted at a boundary.
pub fn replacement_boundaries(boundary: u64, count: usize) -> (r: Vec<u64>)
    ensures
        r@ == replacement_places(boundary, count as nat),
{
    let mut places: Vec<u64> = Vec::new();
    let mut next: u64 = boundary;
    let mut i: usize = 0;
    while i < count
        invariant
            i <= count,
            places@ =~= replacement_places(boundary, i as nat),
            next == if i == 0 {
                boundary
            } else {
                replacement_place(boundary, i - 1)
            },
        decreases count - i,
    {
        next = next.saturating_add(1);
        assert(next == replacement_place(boundary, i as int));
        places.push(next);
        i = i + 1;
    }
    places
}

/// The boundary after a compaction.
pub fn boundary_after(boundary: u64, places: &Vec<u64>) -> (r: u64)
    ensures
        r == after_places(boundary, places@),
{
    let n = places.len();
    if n == 0 {
        boundary.saturating_add(1)
    } else {
        places[n - 1].saturating_add(1)
    }
}

impl ReplayPlan {
    fn fresh(thread: &str) -> (r: Self)
        ensures
            r@ == fresh(thread@),
    {
        let r = ReplayPlan {
            inputs: Vec::new(),
            epoch: 0,
            projected: Vec::new(),
            next_boundary: 0,
            context_window_samples: Vec::new(),
            thread: thread.to_owned(),
            used: 0,
        };
        assert(input_models(r.inputs@) =~= Seq::empty());
        assert(item_models(r.projected@) =~= Seq::empty());
        r
    }

    fn feed(&mut self, input: ReplayInput)
        ensures
            final(self)@ == (PlanModel { inputs: old(self)@.inputs.push(input@), ..old(self)@ }),
    {
        let ghost before = self@;
        self.inputs.push(input);
        assert(input_models(self.inputs@) =~= before.inputs.push(input@));
    }

    fn project(&mut self, item: HistoryItem)
        ensures
            final(self)@ == (PlanModel { projected: old(self)@.projected.push(item@), ..old(self)@ }),
    {
        let ghost before = self@;
        self.projected.push(item);
        assert(item_models(self.projected@) =~= before.projected.push(item@));
    }

    fn sample(&mut self, boundary: u64, window: Option<i64>)
        ensures
            final(self)@ == (PlanModel {
                samples: match window {
                    Some(model_context_window) => old(self)@.samples.push(
                        ContextWindowSample { boundary, model_context_window },
                    ),
                    None => old(self)@.samples,
                },
                ..old(self)@
            }),
    {
        if let Some(model_context_window) = window {
            self.context_window_samples.push(ContextWindowSample { boundary, model_context_window });
        }
    }

    fn take_seed(
        &mut self,
        list: &Vec<(usize, &RolloutEntry)>,
        upto: usize,
        item: &ReplaySeedItem,
    ) -> (r: Result<(), CoordinatorError>)
        requires
            upto <= list@.len(),
        ensures
            match r {
                Ok(()) => seeded(old(self)@, entries(list@).take(upto as int), item@) == Ok::<
                    PlanModel,
                    ErrorModel,
                >(final(self)@),
                Err(error) => seeded(old(self)@, entries(list@).take(upto as int), item@) == Err::<
                    PlanModel,
                    ErrorModel,
                >(error@),
            },
    {
        match item {
            ReplaySeedItem::Source { boundary, item } => {
                let source = match item {
                    None => {
                        return Err(seed_failure());
                    },
                    Some(source) => source,
                };
                let (character, projected) = response_item_to_char_and_source(
                    &source.item,
                    source.contextual,
                    *boundary,
                );
                let mut projected = projected;
                let opaque = match &source.item.body {
                    HistoryBody::Message { .. } => false,
                    HistoryBody::Reasoning { .. } => false,
                    _ => true,
                };
                if opaque {
                    if let Some(id) = &source.item.id {
                        if let Some(found) = find_persisted(list, upto, id.as_str()) {
                            projected = found.copy();
                        }
                    }
                }
                self.feed(ReplayInput::Source(character));
                self.project(projected);
                self.next_boundary = boundary.saturating_add(1);
                Ok(())
            },
            ReplaySeedItem::Compact { barrier, replacement } => {
                let mut items: Vec<HistoryItem> = Vec::new();
                let mut i: usize = 0;
                let ghost before = self@;
                let ghost models = replacement_models(replacement@);
                assert(models.take(0) =~= Seq::empty());
                assert(item_models(items@) =~= Seq::empty());
                while i < replacement.len()
                    invariant
                        i <= replacement@.len(),
                        models == replacement_models(replacement@),
                        seeded_replacement(models.take(i as int)) == Ok::<
                            Seq<HistoryModel>,
                            ErrorModel,
                        >(item_models(items@)),
                        self@ == before,
                        item@ == (SeedModel::Compact { barrier: barrier@, replacement: models }),
                        before == old(self)@,
                    decreases replacement@.len() - i,
                {
                    proof {
                        let part = models.take(i + 1);
                        assert(part.drop_last() =~= models.take(i as int));
                        assert(part.last() == models[i as int]);
                    }
                    match &replacement[i] {
                        None => {
                            proof {
                                lemma_replacement_error(models, i + 1);
                            }
                            return Err(seed_failure());
                        },
                        Some(found) => {
                            let ghost earlier = item_models(items@);
                            items.push(found.copy());
                            assert(item_models(items@) =~= earlier.push(found@));
                        },
                    }
                    i = i + 1;
                }
                assert(models.take(i as int) =~= models);
                let places = copy_places(&barrier.replacement_boundaries);
                self.feed(
                    ReplayInput::Compact(
                        CompactBarrier {
                            thread: barrier.thread.clone(),
                            epoch: barrier.epoch,
                            next_epoch: barrier.next_epoch,
                            boundary: barrier.boundary,
                            replacement_boundaries: places,
                        },
                    ),
                );
                self.epoch = barrier.next_epoch;
                self.projected = items;
                self.next_boundary = boundary_after(
                    barrier.boundary,
                    &barrier.replacement_boundaries,
                );
                Ok(())
            },
            ReplaySeedItem::Usage { boundary, input_tokens, model_context_window } => {
                self.feed(
                    ReplayInput::Usage { boundary: *boundary, input_tokens: *input_tokens },
                );
                self.sample(*boundary, *model_context_window);
                Ok(())
            },
        }
    }

    fn take_source(&mut self, item: &HistoryItem, contextual: bool)
        ensures
            final(self)@ == sourced(old(self)@, item@, contextual),
    {
        let boundary = self.next_boundary;
        let (character, projected) = response_item_to_char_and_source(item, contextual, boundary);
        self.feed(ReplayInput::Source(character));
        self.project(projected);
        self.next_boundary = boundary.saturating_add(1);
    }

    fn take_compacted(
        &mut self,
        message: &String,
        replacement_history: &Option<Vec<HistoryItem>>,
    ) -> (r: Result<(), CoordinatorError>)
        ensures
            match r {
                Ok(()) => compacted(
                    old(self)@,
                    replacement_items(message@, *replacement_history),
                ) == Ok::<PlanModel, ErrorModel>(final(self)@),
                Err(error) => compacted(
                    old(self)@,
                    replacement_items(message@, *replacement_history),
                ) == Err::<PlanModel, ErrorModel>(error@),
            },
    {
        let items = match replacement_history {
            Some(items) => copy_items(items),
            None => {
                let mut content: Vec<ContentItem> = Vec::new();
                content.push(ContentItem::OutputText { text: message.clone() });
                assert(content_models(content@) =~= seq![
                    ContentModel::OutputText { text: message@ },
                ]);
                let mut items: Vec<HistoryItem> = Vec::new();
                items.push(
                    HistoryItem {
                        id: None,
                        payload: None,
                        body: HistoryBody::Message { role: "assistant".to_owned(), content },
                    },
                );
                assert(item_models(items@) =~= seq![summary_item(message@)]);
                items
            },
        };
        assert(item_models(items@).len() == items@.len());
        if self.epoch == u64::MAX {
            return Err(CoordinatorError::Replay("Spine replay epoch exhausted".to_owned()));
        }
        let boundary = self.next_boundary;
        let places = replacement_boundaries(boundary, items.len());
        let next_epoch = self.epoch + 1;
        let next_boundary = boundary_after(boundary, &places);
        let epoch = self.epoch;
        let thread = self.thread.clone();
        self.feed(
            ReplayInput::Compact(
                CompactBarrier {
                    thread,
                    epoch,
                    next_epoch,
                    boundary,
                    replacement_boundaries: places,
                },
            ),
        );
        self.epoch = next_epoch;
        self.projected = items;
        self.next_boundary = next_boundary;
        Ok(())
    }

    fn take_entry(&mut self, entry: &RolloutEntry, records: &Vec<ArchiveRecord>) -> (r: Result<
        (),
        CoordinatorError,
    >)
        ensures
            match r {
                Ok(()) => replayed(old(self)@, *entry, records@) == Ok::<PlanModel, ErrorModel>(
                    final(self)@,
                ),
                Err(error) => replayed(old(self)@, *entry, records@) == Err::<
                    PlanModel,
                    ErrorModel,
                >(error@),
            },
    {
        match entry {
            RolloutEntry::ResponseItem { item, contextual, .. } => {
                self.take_source(item, *contextual);
                Ok(())
            },
            RolloutEntry::InterAgentCommunication { item, contextual } => {
                self.take_source(item, *contextual);
                Ok(())
            },
            RolloutEntry::SamplingStarted { .. } | RolloutEntry::Transition { .. } => {
                match decode_spine_rollout_item(entry) {
                    Err(error) => {
                        return Err(error);
                    },
                    Ok(_) => {},
                }
                if self.used >= records.len() {
                    return Err(
                        CoordinatorError::Replay(
                            "canonical replay record order diverged".to_owned(),
                        ),
                    );
                }
                let record = records[self.used].copy();
                if let ArchiveRecord::SamplingCommit { thread, .. } = &record {
                    self.thread = thread.clone();
                }
                self.feed(ReplayInput::Archive(record));
                self.used = self.used + 1;
                Ok(())
            },
            RolloutEntry::Compacted { message, replacement_history } => {
                self.take_compacted(message, replacement_history)
            },
            RolloutEntry::TokenCount { info } => {
                if let Some(info) = info {
                    let boundary = self.next_boundary;
                    self.sample(boundary, info.model_context_window);
                    self.feed(
                        ReplayInput::Usage { boundary, input_tokens: info.input_tokens },
                    );
                }
                Ok(())
            },
            _ => Ok(()),
        }
    }
}

fn copy_places(places: &Vec<u64>) -> (r: Vec<u64>)
    ensures
        r@ == places@,
{
    let mut copies: Vec<u64> = Vec::new();
    let mut i: usize = 0;
    while i < places.len()
        invariant
            i <= places@.len(),
            copies@ =~= places@.take(i as int),
        decreases places@.len() - i,
    {
        copies.push(places[i]);
        i = i + 1;
    }
    assert(copies@ =~= places@);
    copies
}

proof fn lemma_replacement_error(items: Seq<Option<HistoryModel>>, n: int)
    requires
        0 <= n <= items.len(),
        seeded_replacement(items.take(n)) is Err,
    ensures
        seeded_replacement(items) == seeded_replacement(items.take(n)),
    decreases items.len() - n,
{
    if n == items.len() {
        assert(items.take(n) =~= items);
    } else {
        assert(items.take(n + 1).drop_last() =~= items.take(n));
        lemma_replacement_error(items, n + 1);
    }
}

proof fn lemma_seed_error(m: PlanModel, list: Seq<Numbered>, seed: Seq<SeedModel>, n: int)
    requires
        0 <= n <= seed.len(),
        seeded_all(m, list, seed.take(n)) is Err,
    ensures
        seeded_all(m, list, seed) == seeded_all(m, list, seed.take(n)),
    decreases seed.len() - n,
{
    if n == seed.len() {
        assert(seed.take(n) =~= seed);
    } else {
        assert(seed.take(n + 1).drop_last() =~= seed.take(n));
        lemma_seed_error(m, list, seed, n + 1);
    }
}

proof fn lemma_replay_error(
    m: PlanModel,
    list: Seq<Numbered>,
    records: Seq<ArchiveRecord>,
    n: int,
)
    requires
        0 <= n <= list.len(),
        replayed_all(m, list.take(n), records) is Err,
    ensures
        replayed_all(m, list, records) == replayed_all(m, list.take(n), records),
    decreases list.len() - n,
{
    if n == list.len() {
        assert(list.take(n) =~= list);
    } else {
        assert(list.take(n + 1).drop_last() =~= list.take(n));
        lemma_replay_error(m, list, records, n + 1);
    }
}

proof fn lemma_first_sampling(list: Seq<Numbered>, n: int)
    requires
        0 <= n < list.len(),
        list[n].1 is SamplingStarted,
        forall|i: int| 0 <= i < n ==> !((#[trigger] list[i]).1 is SamplingStarted),
    ensures
        first_sampling(list) == n,
    decreases list.len(),
{
    if n == list.len() - 1 {
        lemma_no_sampling(list.drop_last());
    } else {
        lemma_first_sampling(list.drop_last(), n);
    }
}

proof fn lemma_no_sampling(list: Seq<Numbered>)
    requires
        forall|i: int| 0 <= i < list.len() ==> !((#[trigger] list[i]).1 is SamplingStarted),
    ensures
        first_sampling(list) == list.len(),
    decreases list.len(),
{
    if list.len() > 0 {
        assert(!(list[list.len() - 1].1 is SamplingStarted));
        assert forall|i: int| 0 <= i < list.drop_last().len() implies !((#[trigger] list.drop_last()[i]).1
            is SamplingStarted) by {
            assert(!(list[i].1 is SamplingStarted));
        }
        lemma_no_sampling(list.drop_last());
    }
}

fn find_sampling(list: &Vec<(usize, &RolloutEntry)>) -> (r: usize)
    ensures
        r == first_sampling(entries(list@)),
        r <= list@.len(),
        r < list@.len() ==> *list@[r as int].1 is SamplingStarted,
{
    let ghost all = entries(list@);
    let mut i: usize = 0;
    while i < list.len()
        invariant
            i <= list@.len(),
            all == entries(list@),
            forall|k: int| 0 <= k < i ==> !((#[trigger] all[k]).1 is SamplingStarted),
        decreases list@.len() - i,
    {
        if let RolloutEntry::SamplingStarted { .. } = list[i].1 {
            proof {
                lemma_first_sampling(all, i as int);
            }
            return i;
        }
        assert(!(all[i as int].1 is SamplingStarted));
        i = i + 1;
    }
    proof {
        lemma_no_sampling(all);
    }
    i
}

/// The replay of a rollout in effect from its records.
pub fn plan_replay(
    list: &Vec<(usize, &RolloutEntry)>,
    replay_thread: &str,
    records: &Vec<ArchiveRecord>,
) -> (r: Result<ReplayPlan, CoordinatorError>)
    ensures
        match r {
            Ok(plan) => replay_of(entries(list@), replay_thread@, records@) == Ok::<
                PlanModel,
                ErrorModel,
            >(plan@),
            Err(error) => replay_of(entries(list@), replay_thread@, records@) == Err::<
                PlanModel,
                ErrorModel,
            >(error@),
        },
{
    let ghost all = entries(list@);
    let mut plan = ReplayPlan::fresh(replay_thread);
    let at = find_sampling(list);
    let mut start: usize = 0;
    if at < list.len() {
        assert(all[at as int].1 == *list@[at as int].1);
        if let RolloutEntry::SamplingStarted { replay_seed: Some(seed), .. } = list[at].1 {
            let seed = match seed {
                Err(error) => {
                    let mut message = String::from_str("invalid initialization seed: ");
                    message.append(error.as_str());
                    return Err(CoordinatorError::Replay(message));
                },
                Ok(seed) => seed,
            };
            let ghost begun = plan@;
            let ghost models = seed_models(seed@);
            let mut i: usize = 0;
            assert(models.take(0) =~= Seq::empty());
            while i < seed.len()
                invariant
                    i <= seed@.len(),
                    all == entries(list@),
                    at < list@.len(),
                    begun == fresh(replay_thread@),
                    seed_of(all) == Some(Ok::<Vec<ReplaySeedItem>, String>(*seed)),
                    at == first_sampling(all),
                    models == seed_models(seed@),
                    seeded_all(begun, all.take(at as int), models.take(i as int)) == Ok::<
                        PlanModel,
                        ErrorModel,
                    >(plan@),
                decreases seed@.len() - i,
            {
                proof {
                    let part = models.take(i + 1);
                    assert(part.drop_last() =~= models.take(i as int));
                    assert(part.last() == models[i as int]);
                }
                if let Err(error) = plan.take_seed(list, at, &seed[i]) {
                    proof {
                        lemma_seed_error(begun, all.take(at as int), models, i + 1);
                    }
                    return Err(error);
                }
                i = i + 1;
            }
            assert(models.take(i as int) =~= models);
            start = at;
        }
    }
    let ghost begun = plan@;
    let ghost rest = all.skip(start as int);
    proof {
        assert(all.skip(0) =~= all);
        assert(rest.take(0) =~= Seq::empty());
        assert(replay_of(all, replay_thread@, records@) == replayed_all(begun, rest, records@));
    }
    let mut i: usize = start;
    while i < list.len()
        invariant
            start <= i <= list@.len(),
            all == entries(list@),
            rest == all.skip(start as int),
            replay_of(all, replay_thread@, records@) == replayed_all(begun, rest, records@),
            replayed_all(begun, rest.take(i - start), records@) == Ok::<PlanModel, ErrorModel>(
                plan@,
            ),
        decreases list@.len() - i,
    {
        proof {
            let part = rest.take(i - start + 1);
            assert(part.drop_last() =~= rest.take(i - start));
            assert(part.last() == all[i as int]);
        }
        if let Err(error) = plan.take_entry(list[i].1, records) {
            proof {
                lemma_replay_error(begun, rest, records@, i - start + 1);
            }
            return Err(error);
        }
        i = i + 1;
    }
    assert(rest.take(i - start) =~= rest);
    Ok(plan)
}

/// Refuses a replay whose source cells are not as many as the items that they
/// should stand for.
pub fn check_source_identities(cells: usize, projected: usize) -> (r: Result<(), CoordinatorError>)
    ensures
        match r {
            Ok(()) => cells == projected,
            Err(error) => cells != projected && error@ == ErrorModel::Replay(
                "canonical source identities diverged from native source items"@,
            ),
        },
{
    if cells != projected {
        return Err(
            CoordinatorError::Replay(
                "canonical source identities diverged from native source items".to_owned(),
            ),
        );
    }
    Ok(())
}

/// How many source cells a run of inputs leaves: the replacements of the last
/// compaction, and what came after it.
pub open spec fn cell_count(inputs: Seq<InputModel>) -> nat
    decreases inputs.len(),
{
    if inputs.len() == 0 {
        0
    } else {
        match inputs.last() {
            InputModel::Source(_) => cell_count(inputs.drop_last()) + 1,
            InputModel::Compact(barrier) => barrier.replacement_boundaries.len(),
            _ => cell_count(inputs.drop_last()),
        }
    }
}

/// Whether the compactions of a seed have one place for each replacement.
pub open spec fn seed_is_even(seed: Seq<SeedModel>) -> bool {
    forall|i: int|
        0 <= i < seed.len() ==> (#[trigger] seed[i] matches SeedModel::Compact {
            barrier,
            replacement,
        } ==> barrier.replacement_boundaries.len() == replacement.len())
}

proof fn lemma_seeded_replacement_len(items: Seq<Option<HistoryModel>>)
    requires
        seeded_replacement(items) is Ok,
    ensures
        seeded_replacement(items)->Ok_0.len() == items.len(),
    decreases items.len(),
{
    if items.len() > 0 {
        lemma_seeded_replacement_len(items.drop_last());
    }
}

proof fn lemma_cells_push(inputs: Seq<InputModel>, input: InputModel)
    ensures
        cell_count(inputs.push(input)) == match input {
            InputModel::Source(_) => cell_count(inputs) + 1,
            InputModel::Compact(barrier) => barrier.replacement_boundaries.len(),
            _ => cell_count(inputs),
        },
{
    assert(inputs.push(input).drop_last() =~= inputs);
}

proof fn lemma_seeded_cells(m: PlanModel, list: Seq<Numbered>, seed: Seq<SeedModel>)
    requires
        cell_count(m.inputs) == m.projected.len(),
        seed_is_even(seed),
        seeded_all(m, list, seed) is Ok,
    ensures
        ({
            let end = seeded_all(m, list, seed)->Ok_0;
            cell_count(end.inputs) == end.projected.len()
        }),
    decreases seed.len(),
{
    if seed.len() > 0 {
        let rest = seed.drop_last();
        assert forall|i: int| 0 <= i < rest.len() implies (#[trigger] rest[i] matches
            SeedModel::Compact { barrier, replacement }
            ==> barrier.replacement_boundaries.len() == replacement.len()) by {
            assert(rest[i] == seed[i]);
        }
        lemma_seeded_cells(m, list, rest);
        let before = seeded_all(m, list, rest)->Ok_0;
        let end = seeded_all(m, list, seed)->Ok_0;
        assert(seed.last() == seed[seed.len() - 1]);
        assert(end.inputs.drop_last() =~= before.inputs);
        lemma_cells_push(before.inputs, end.inputs.last());
        assert(before.inputs.push(end.inputs.last()) =~= end.inputs);
        if let SeedModel::Compact { barrier, replacement } = seed.last() {
            lemma_seeded_replacement_len(replacement);
        }
    }
}

proof fn lemma_replayed_cells(m: PlanModel, list: Seq<Numbered>, records: Seq<ArchiveRecord>)
    requires
        cell_count(m.inputs) == m.projected.len(),
        replayed_all(m, list, records) is Ok,
    ensures
        ({
            let end = replayed_all(m, list, records)->Ok_0;
            cell_count(end.inputs) == end.projected.len()
        }),
    decreases list.len(),
{
    if list.len() > 0 {
        lemma_replayed_cells(m, list.drop_last(), records);
        let before = replayed_all(m, list.drop_last(), records)->Ok_0;
        let end = replayed_all(m, list, records)->Ok_0;
        if end.inputs != before.inputs {
            assert(end.inputs.drop_last() =~= before.inputs);
            lemma_cells_push(before.inputs, end.inputs.last());
            assert(before.inputs.push(end.inputs.last()) =~= end.inputs);
        }
    }
}

/// A replay has one item for each source cell, provided that the compactions of
/// its seed do.
pub proof fn one_item_for_each_source_cell(
    list: Seq<Numbered>,
    thread: Seq<char>,
    records: Seq<ArchiveRecord>,
)
    requires
        replay_of(list, thread, records) is Ok,
        seed_of(list) matches Some(Ok(seed)) ==> seed_is_even(seed_models(seed@)),
    ensures
        ({
            let end = replay_of(list, thread, records)->Ok_0;
            cell_count(end.inputs) == end.projected.len()
        }),
{
    match seed_of(list) {
        Some(Ok(seed)) => {
            let at = first_sampling(list);
            lemma_seeded_cells(fresh(thread), list.take(at), seed_models(seed@));
            let start = seeded_all(fresh(thread), list.take(at), seed_models(seed@))->Ok_0;
            lemma_replayed_cells(start, list.skip(at), records);
        },
        _ => {
            lemma_replayed_cells(fresh(thread), list, records);
        },
    }
}

/// A replay that cannot go on says why: a seed that cannot be read or holds no
/// item, epochs that have run out, or a record for which there is none.
pub proof fn a_replay_that_fails_says_why(
    list: Seq<Numbered>,
    thread: Seq<char>,
    records: Seq<ArchiveRecord>,
    m: PlanModel,
    items: Seq<HistoryModel>,
    boundary: u64,
)
    ensures
        seed_of(list) matches Some(Err(error)) ==> replay_of(list, thread, records) == Err::<
            PlanModel,
            ErrorModel,
        >(ErrorModel::Replay("invalid initialization seed: "@ + error@)),
        m.epoch == u64::MAX ==> compacted(m, items) == Err::<PlanModel, ErrorModel>(
            ErrorModel::Replay("Spine replay epoch exhausted"@),
        ),
        m.epoch < u64::MAX ==> compacted(m, items) is Ok,
        m.used >= records.len() ==> recorded(m, records) == Err::<PlanModel, ErrorModel>(
            ErrorModel::Replay("canonical replay record order diverged"@),
        ),
        m.used < records.len() ==> recorded(m, records) is Ok,
        seeded(m, list, SeedModel::Source { boundary, item: None }) == Err::<PlanModel, ErrorModel>(
            ErrorModel::Replay("initialization seed source must contain a response item"@),
        ),
{
}

} // verus!
